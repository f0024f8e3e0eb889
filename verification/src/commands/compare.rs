//! The comparison commands: `if`, `equals`, `not`, `bigger`, `smaller`.

use crate::machine::bool_token;
use crate::machine::is_false;
use crate::machine::nil_token;
use crate::machine::Machine;
use crate::numdec::dec_lt;
use crate::numdec::parse_string_dec;
use crate::parser::tokens_view;
use crate::parser::Token;
use crate::semantics::ErrorKind;
use crate::semantics::s_bigger;
use crate::semantics::s_equals;
use crate::semantics::s_if;
use crate::semantics::s_not;
use crate::semantics::s_smaller;
use vstd::prelude::*;
use vstd::string::StrSliceExecFns;

verus! {

impl Machine {
    /// `if`: the condition coerced to text; exactly one branch is
    /// evaluated, the else branch when the text is one of the false texts.
    pub fn if_(&mut self, callback: Vec<Token>, fuel: u64) -> (r: Token)
        ensures
            (final(self)@, r@) == s_if(old(self)@, tokens_view(callback@), fuel as nat),
        decreases fuel, 2int, 0int,
    {
        if callback.len() != 3 {
            self.fatal_err(ErrorKind::ArgCount);
            return nil_token();
        }
        let ghost argsv = tokens_view(callback@);
        let mut cb = callback;
        let do_if_false = cb.pop().unwrap();
        let do_if_true = cb.pop().unwrap();
        let cond_tok = cb.pop().unwrap();
        proof {
            assert(cond_tok@ == argsv[0]);
            assert(do_if_true@ == argsv[1]);
            assert(do_if_false@ == argsv[2]);
        }
        let condination = self.token_to_string_fueled(cond_tok, fuel);
        if is_false(&condination) {
            self.process_fueled(do_if_false, fuel)
        } else {
            self.process_fueled(do_if_true, fuel)
        }
    }

    /// `equals`: whether the two texts are the same.
    pub fn equals(&mut self, callback: Vec<Token>, fuel: u64) -> (r: Token)
        ensures
            (final(self)@, r@) == s_equals(old(self)@, tokens_view(callback@), fuel as nat),
        decreases fuel, 2int, 0int,
    {
        if callback.len() != 2 {
            self.fatal_err(ErrorKind::ArgCount);
            return nil_token();
        }
        let ghost argsv = tokens_view(callback@);
        let mut cb = callback;
        let second_tok = cb.pop().unwrap();
        let first_tok = cb.pop().unwrap();
        proof {
            assert(first_tok@ == argsv[0]);
            assert(second_tok@ == argsv[1]);
        }
        let first_object = self.token_to_string_fueled(first_tok, fuel);
        let second_object = self.token_to_string_fueled(second_tok, fuel);
        bool_token(crate::strutil::str_eq(first_object.as_str(), second_object.as_str()))
    }

    /// `not`: true exactly for the false texts.
    pub fn not(&mut self, callback: Vec<Token>, fuel: u64) -> (r: Token)
        ensures
            (final(self)@, r@) == s_not(old(self)@, tokens_view(callback@), fuel as nat),
        decreases fuel, 2int, 0int,
    {
        if callback.len() != 1 {
            self.fatal_err(ErrorKind::ArgCount);
            return nil_token();
        }
        let ghost argsv = tokens_view(callback@);
        let mut cb = callback;
        let first_tok = cb.pop().unwrap();
        proof {
            assert(first_tok@ == argsv[0]);
        }
        let got_object = self.token_to_string_fueled(first_tok, fuel);
        bool_token(is_false(&got_object))
    }

    /// `bigger`: numeric comparison when both texts are numbers, else a
    /// comparison of their lengths.
    pub fn bigger(&mut self, callback: Vec<Token>, fuel: u64) -> (r: Token)
        ensures
            (final(self)@, r@) == s_bigger(old(self)@, tokens_view(callback@), fuel as nat),
        decreases fuel, 2int, 0int,
    {
        if callback.len() != 2 {
            self.fatal_err(ErrorKind::ArgCount);
            return nil_token();
        }
        let ghost argsv = tokens_view(callback@);
        let mut cb = callback;
        let second_tok = cb.pop().unwrap();
        let first_tok = cb.pop().unwrap();
        proof {
            assert(first_tok@ == argsv[0]);
            assert(second_tok@ == argsv[1]);
        }
        let first_object = self.token_to_string_fueled(first_tok, fuel);
        let second_object = self.token_to_string_fueled(second_tok, fuel);
        let first_number = parse_string_dec(&first_object);
        let second_number = parse_string_dec(&second_object);
        match (first_number, second_number) {
            (Some(da), Some(db)) => bool_token(dec_lt(db, da)),
            _ => bool_token(
                first_object.as_str().unicode_len() > second_object.as_str().unicode_len(),
            ),
        }
    }

    /// `smaller`: numeric comparison when both texts are numbers, else a
    /// comparison of their lengths.
    pub fn smaller(&mut self, callback: Vec<Token>, fuel: u64) -> (r: Token)
        ensures
            (final(self)@, r@) == s_smaller(old(self)@, tokens_view(callback@), fuel as nat),
        decreases fuel, 2int, 0int,
    {
        if callback.len() != 2 {
            self.fatal_err(ErrorKind::ArgCount);
            return nil_token();
        }
        let ghost argsv = tokens_view(callback@);
        let mut cb = callback;
        let second_tok = cb.pop().unwrap();
        let first_tok = cb.pop().unwrap();
        proof {
            assert(first_tok@ == argsv[0]);
            assert(second_tok@ == argsv[1]);
        }
        let first_object = self.token_to_string_fueled(first_tok, fuel);
        let second_object = self.token_to_string_fueled(second_tok, fuel);
        let first_number = parse_string_dec(&first_object);
        let second_number = parse_string_dec(&second_object);
        match (first_number, second_number) {
            (Some(da), Some(db)) => bool_token(dec_lt(da, db)),
            _ => bool_token(
                first_object.as_str().unicode_len() < second_object.as_str().unicode_len(),
            ),
        }
    }
}

} // verus!
