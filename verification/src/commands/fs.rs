//! The virtual file-store commands: `file.read`, `file.write`,
//! `file.make`, `file.exists`, `file.remove`.
//!
//! The machine's file store is its own: a sandboxed map from names to
//! contents. The embedder decides whether and how to mirror it to a real
//! file system.

use crate::machine::bool_token;
use crate::machine::files_view;
use crate::machine::nil_token;
use crate::machine::FileEntry;
use crate::machine::Machine;
use crate::parser::tokens_view;
use crate::parser::Token;
use crate::semantics::ErrorKind;
use crate::semantics::s_existsf;
use crate::semantics::s_makef;
use crate::semantics::s_readf;
use crate::semantics::s_removef;
use crate::semantics::s_writef;
use vstd::prelude::*;

verus! {

impl Machine {
    /// `file.read`: the stored contents of the named file, or nil.
    pub fn readf(&mut self, callback: Vec<Token>, fuel: u64) -> (r: Token)
        ensures
            (final(self)@, r@) == s_readf(old(self)@, tokens_view(callback@), fuel as nat),
        decreases fuel, 2int, 0int,
    {
        if callback.len() != 1 {
            self.fatal_err(ErrorKind::ArgCount);
            return nil_token();
        }
        let ghost argsv = tokens_view(callback@);
        let mut cb = callback;
        let first_tok = cb.pop().unwrap();
        proof {
            assert(first_tok@ == argsv[0]);
        }
        let first_arg = self.token_to_string_fueled(first_tok, fuel);
        match self.find_file(&first_arg) {
            None => nil_token(),
            Some(i) => Token::String(self.files[i].contents.clone()),
        }
    }

    /// `file.write`: the named file is created or replaced with the
    /// contents.
    pub fn writef(&mut self, callback: Vec<Token>, fuel: u64) -> (r: Token)
        ensures
            (final(self)@, r@) == s_writef(old(self)@, tokens_view(callback@), fuel as nat),
        decreases fuel, 2int, 0int,
    {
        if callback.len() != 2 {
            self.fatal_err(ErrorKind::ArgCount);
            return nil_token();
        }
        let ghost argsv = tokens_view(callback@);
        let mut cb = callback;
        let second_tok = cb.pop().unwrap();
        let first_tok = cb.pop().unwrap();
        proof {
            assert(first_tok@ == argsv[0]);
            assert(second_tok@ == argsv[1]);
        }
        let first_arg = self.token_to_string_fueled(first_tok, fuel);
        let second_arg = self.token_to_string_fueled(second_tok, fuel);
        self.remove_file_entry(&first_arg);
        let ghost pre = self@;
        self.files.push(FileEntry { name: first_arg, contents: second_arg });
        proof {
            assert(files_view(self.files@) =~= pre.files.push(
                (self.files@.last().name@, self.files@.last().contents@),
            ));
        }
        bool_token(true)
    }

    /// `file.make`: the named file is created empty when absent.
    pub fn makef(&mut self, callback: Vec<Token>, fuel: u64) -> (r: Token)
        ensures
            (final(self)@, r@) == s_makef(old(self)@, tokens_view(callback@), fuel as nat),
        decreases fuel, 2int, 0int,
    {
        if callback.len() != 1 {
            self.fatal_err(ErrorKind::ArgCount);
            return nil_token();
        }
        let ghost argsv = tokens_view(callback@);
        let mut cb = callback;
        let first_tok = cb.pop().unwrap();
        proof {
            assert(first_tok@ == argsv[0]);
        }
        let first_arg = self.token_to_string_fueled(first_tok, fuel);
        match self.find_file(&first_arg) {
            Some(_) => bool_token(false),
            None => {
                let ghost pre = self@;
                let empty = String::new();
                proof {
                    assert(empty@ =~= Seq::<char>::empty());
                }
                self.files.push(FileEntry { name: first_arg, contents: empty });
                proof {
                    assert(files_view(self.files@) =~= pre.files.push(
                        (self.files@.last().name@, self.files@.last().contents@),
                    ));
                }
                bool_token(true)
            },
        }
    }

    /// `file.exists`: whether the named file is stored.
    pub fn existsf(&mut self, callback: Vec<Token>, fuel: u64) -> (r: Token)
        ensures
            (final(self)@, r@) == s_existsf(old(self)@, tokens_view(callback@), fuel as nat),
        decreases fuel, 2int, 0int,
    {
        if callback.len() != 1 {
            self.fatal_err(ErrorKind::ArgCount);
            return nil_token();
        }
        let ghost argsv = tokens_view(callback@);
        let mut cb = callback;
        let first_tok = cb.pop().unwrap();
        proof {
            assert(first_tok@ == argsv[0]);
        }
        let first_arg = self.token_to_string_fueled(first_tok, fuel);
        match self.find_file(&first_arg) {
            Some(_) => bool_token(true),
            None => bool_token(false),
        }
    }

    /// `file.remove`: the named file is removed; whether it was there.
    pub fn removef(&mut self, callback: Vec<Token>, fuel: u64) -> (r: Token)
        ensures
            (final(self)@, r@) == s_removef(old(self)@, tokens_view(callback@), fuel as nat),
        decreases fuel, 2int, 0int,
    {
        if callback.len() != 1 {
            self.fatal_err(ErrorKind::ArgCount);
            return nil_token();
        }
        let ghost argsv = tokens_view(callback@);
        let mut cb = callback;
        let first_tok = cb.pop().unwrap();
        proof {
            assert(first_tok@ == argsv[0]);
        }
        let first_arg = self.token_to_string_fueled(first_tok, fuel);
        match self.find_file(&first_arg) {
            None => bool_token(false),
            Some(i) => {
                let ghost pre = self@;
                let _ = self.files.remove(i);
                proof {
                    assert(files_view(self.files@) =~= pre.files.remove(i as int));
                }
                bool_token(true)
            },
        }
    }
}

} // verus!
