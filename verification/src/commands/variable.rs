//! The variable commands: `let`, `get`, `clone`, `upgrade`, `pubv`.

use crate::machine::Machine;
use crate::machine::nil_token;
use crate::machine::empty_token;
use crate::machine::vars_view;
use crate::machine::VariableData;
use crate::parser::tokens_view;
use crate::parser::Token;
use crate::semantics::ErrorKind;
use crate::semantics::s_clone;
use crate::semantics::s_get;
use crate::semantics::s_let;
use crate::semantics::s_pubv;
use crate::semantics::s_upgrade;
use vstd::prelude::*;

verus! {

impl Machine {
    /// `let`: the named variable is created or replaced with budget one.
    pub fn let_(&mut self, callback: Vec<Token>, fuel: u64) -> (r: Token)
        ensures
            (final(self)@, r@) == s_let(old(self)@, tokens_view(callback@), fuel as nat),
        decreases fuel, 2int, 0int,
    {
        if callback.len() != 2 {
            self.fatal_err(ErrorKind::ArgCount);
            return nil_token();
        }
        let ghost argsv = tokens_view(callback@);
        let mut cb = callback;
        let second_arg = cb.pop().unwrap();
        let first_arg = cb.pop().unwrap();
        proof {
            assert(first_arg@ == argsv[0]);
            assert(second_arg@ == argsv[1]);
        }
        let variable_name = self.token_to_string_fueled(first_arg, fuel);
        let variable_value = self.token_to_string_fueled(second_arg, fuel);
        self.remove_variable(&variable_name);
        let ghost pre = self@;
        self.variables.push(VariableData::new(variable_name, variable_value));
        proof {
            assert(vars_view(self.variables@) =~= pre.vars.push(self.variables@.last()@));
        }
        nil_token()
    }

    /// `get`: one read of the variable is consumed; the last read removes
    /// the entry. A missing name is reported and yields the empty text.
    pub fn get(&mut self, callback: Vec<Token>, fuel: u64) -> (r: Token)
        ensures
            (final(self)@, r@) == s_get(old(self)@, tokens_view(callback@), fuel as nat),
        decreases fuel, 2int, 0int,
    {
        if callback.len() != 1 {
            self.fatal_err(ErrorKind::ArgCount);
            return nil_token();
        }
        let ghost argsv = tokens_view(callback@);
        let mut cb = callback;
        let first_arg = cb.pop().unwrap();
        proof {
            assert(first_arg@ == argsv[0]);
        }
        let variable_name = self.token_to_string_fueled(first_arg, fuel);
        match self.find_variable(&variable_name) {
            None => {
                self.note_err(ErrorKind::MissingVariable);
                empty_token()
            },
            Some(i) => {
                let rc0 = self.variables[i].ref_count;
                if rc0 == 0 {
                    nil_token()
                } else if rc0 == 1 {
                    let ghost pre = self@;
                    let mut v = self.variables.remove(i);
                    let text = v.get();
                    proof {
                        assert(vars_view(self.variables@) =~= pre.vars.remove(i as int));
                    }
                    Token::String(text)
                } else {
                    let ghost pre = self@;
                    let mut v = self.variables.remove(i);
                    let text = v.get();
                    let ghost after = v@;
                    self.variables.insert(i, v);
                    proof {
                        assert(vars_view(self.variables@) =~= pre.vars.update(i as int, after));
                    }
                    Token::String(text)
                }
            },
        }
    }

    /// `clone`: the value is read without touching the budget or the
    /// entry.
    pub fn clone_cmd(&mut self, callback: Vec<Token>, fuel: u64) -> (r: Token)
        ensures
            (final(self)@, r@) == s_clone(old(self)@, tokens_view(callback@), fuel as nat),
        decreases fuel, 2int, 0int,
    {
        if callback.len() != 1 {
            self.fatal_err(ErrorKind::ArgCount);
            return nil_token();
        }
        let ghost argsv = tokens_view(callback@);
        let mut cb = callback;
        let first_arg = cb.pop().unwrap();
        proof {
            assert(first_arg@ == argsv[0]);
        }
        let variable_name = self.token_to_string_fueled(first_arg, fuel);
        match self.find_variable(&variable_name) {
            None => {
                self.note_err(ErrorKind::MissingVariable);
                empty_token()
            },
            Some(i) => {
                let text = self.variables[i].value.clone();
                Token::String(text)
            },
        }
    }

    /// `upgrade`: one more read of the variable is allowed; the name is
    /// returned.
    pub fn upgrade(&mut self, callback: Vec<Token>, fuel: u64) -> (r: Token)
        ensures
            (final(self)@, r@) == s_upgrade(old(self)@, tokens_view(callback@), fuel as nat),
        decreases fuel, 2int, 0int,
    {
        if callback.len() != 1 {
            self.fatal_err(ErrorKind::ArgCount);
            return nil_token();
        }
        let ghost argsv = tokens_view(callback@);
        let mut cb = callback;
        let first_arg = cb.pop().unwrap();
        proof {
            assert(first_arg@ == argsv[0]);
        }
        let variable_name = self.token_to_string_fueled(first_arg, fuel);
        match self.find_variable(&variable_name) {
            None => {
                self.note_err(ErrorKind::MissingVariable);
                empty_token()
            },
            Some(i) => {
                let ghost pre = self@;
                let mut v = self.variables.remove(i);
                v.upgrade();
                let ghost after = v@;
                self.variables.insert(i, v);
                proof {
                    assert(vars_view(self.variables@) =~= pre.vars.update(i as int, after));
                }
                Token::String(variable_name)
            },
        }
    }

    /// `pubv`: the export flag of the variable is toggled.
    pub fn pubv(&mut self, callback: Vec<Token>, fuel: u64) -> (r: Token)
        ensures
            (final(self)@, r@) == s_pubv(old(self)@, tokens_view(callback@), fuel as nat),
        decreases fuel, 2int, 0int,
    {
        if callback.len() != 1 {
            self.fatal_err(ErrorKind::ArgCount);
            return nil_token();
        }
        let ghost argsv = tokens_view(callback@);
        let mut cb = callback;
        let first_arg = cb.pop().unwrap();
        proof {
            assert(first_arg@ == argsv[0]);
        }
        let variable_name = self.token_to_string_fueled(first_arg, fuel);
        match self.find_variable(&variable_name) {
            None => {
                self.note_err(ErrorKind::MissingVariable);
                empty_token()
            },
            Some(i) => {
                let ghost pre = self@;
                let mut v = self.variables.remove(i);
                v.public = !v.public;
                let ghost after = v@;
                self.variables.insert(i, v);
                proof {
                    assert(vars_view(self.variables@) =~= pre.vars.update(i as int, after));
                }
                nil_token()
            },
        }
    }
}

} // verus!
