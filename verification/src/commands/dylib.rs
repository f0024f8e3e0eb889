//! The native-library commands: `dylib`, `native`, `pubd`.
//!
//! The machine keeps only the registry of named library paths. Loading a
//! shared object and calling into it cannot be verified and is left to the
//! embedder; the `native` command itself reports the bridge as
//! unavailable.

use crate::machine::empty_token;
use crate::machine::libs_view;
use crate::machine::nil_token;
use crate::machine::DynamicLibraryData;
use crate::machine::Machine;
use crate::parser::tokens_view;
use crate::parser::Token;
use crate::semantics::ErrorKind;
use crate::semantics::s_dylib;
use crate::semantics::s_native;
use crate::semantics::s_pubd;
use vstd::prelude::*;

verus! {

impl Machine {
    /// `dylib`: the named library is registered or replaced by its path.
    pub fn dylib(&mut self, callback: Vec<Token>, fuel: u64) -> (r: Token)
        ensures
            (final(self)@, r@) == s_dylib(old(self)@, tokens_view(callback@), fuel as nat),
        decreases fuel, 2int, 0int,
    {
        if callback.len() != 2 {
            self.fatal_err(ErrorKind::ArgCount);
            return nil_token();
        }
        let ghost argsv = tokens_view(callback@);
        let mut cb = callback;
        let second_tok = cb.pop().unwrap();
        let first_tok = cb.pop().unwrap();
        proof {
            assert(first_tok@ == argsv[0]);
            assert(second_tok@ == argsv[1]);
        }
        let library_name = self.token_to_string_fueled(first_tok, fuel);
        let library_path = self.token_to_string_fueled(second_tok, fuel);
        self.remove_library(&library_name);
        let ghost pre = self@;
        self.dynamic_libs.push(
            DynamicLibraryData { key: library_name, path: library_path, public: false },
        );
        proof {
            assert(libs_view(self.dynamic_libs@) =~= pre.libs.push(self.dynamic_libs@.last()@));
        }
        nil_token()
    }

    /// `native`: the library is looked up; with no native bridge present
    /// the call itself is reported as unavailable and yields the empty
    /// text.
    pub fn native(&mut self, callback: Vec<Token>, fuel: u64) -> (r: Token)
        ensures
            (final(self)@, r@) == s_native(old(self)@, tokens_view(callback@), fuel as nat),
        decreases fuel, 2int, 0int,
    {
        if callback.len() != 3 {
            self.fatal_err(ErrorKind::ArgCount);
            return nil_token();
        }
        let ghost argsv = tokens_view(callback@);
        let mut cb = callback;
        let third_tok = cb.pop().unwrap();
        let second_tok = cb.pop().unwrap();
        let first_tok = cb.pop().unwrap();
        proof {
            assert(first_tok@ == argsv[0]);
            assert(second_tok@ == argsv[1]);
            assert(third_tok@ == argsv[2]);
        }
        let library_name = self.token_to_string_fueled(first_tok, fuel);
        let _function_name = self.token_to_string_fueled(second_tok, fuel);
        let _function_arg = self.token_to_string_fueled(third_tok, fuel);
        match self.find_library(&library_name) {
            None => {
                self.note_err(ErrorKind::MissingLibrary);
                empty_token()
            },
            Some(_) => {
                self.note_err(ErrorKind::NativeUnavailable);
                empty_token()
            },
        }
    }

    /// `pubd`: the export flag of the library is toggled.
    pub fn pubd(&mut self, callback: Vec<Token>, fuel: u64) -> (r: Token)
        ensures
            (final(self)@, r@) == s_pubd(old(self)@, tokens_view(callback@), fuel as nat),
        decreases fuel, 2int, 0int,
    {
        if callback.len() != 1 {
            self.fatal_err(ErrorKind::ArgCount);
            return nil_token();
        }
        let ghost argsv = tokens_view(callback@);
        let mut cb = callback;
        let first_tok = cb.pop().unwrap();
        proof {
            assert(first_tok@ == argsv[0]);
        }
        let library_name = self.token_to_string_fueled(first_tok, fuel);
        match self.find_library(&library_name) {
            None => {
                self.note_err(ErrorKind::MissingLibrary);
                nil_token()
            },
            Some(i) => {
                let ghost pre = self@;
                let mut l = self.dynamic_libs.remove(i);
                l.public = !l.public;
                let ghost after = l@;
                self.dynamic_libs.insert(i, l);
                proof {
                    assert(libs_view(self.dynamic_libs@) =~= pre.libs.update(i as int, after));
                }
                nil_token()
            },
        }
    }
}

} // verus!
