//! The arithmetic commands: `+`, `-`, `*`, `/`, `%`.

use crate::machine::nil_token;
use crate::machine::Machine;
use crate::numdec::dec_add;
use crate::numdec::dec_div;
use crate::numdec::dec_mod;
use crate::numdec::dec_mul;
use crate::numdec::dec_sub;
use crate::numdec::parse_string_dec;
use crate::numdec::render_dec_string;
use crate::numdec::Dec;
use crate::parser::tokens_view;
use crate::parser::Token;
use crate::semantics::ErrorKind;
use crate::semantics::s_add;
use crate::semantics::s_div;
use crate::semantics::s_mod;
use crate::semantics::s_mul;
use crate::semantics::s_sub;
use crate::semantics::s_two_numbers;
use vstd::prelude::*;

verus! {

impl Machine {
    /// The two operand texts of an arithmetic command, parsed as numbers.
    fn two_numbers(&mut self, callback: Vec<Token>, fuel: u64) -> (r: Option<(Dec, Dec)>)
        requires
            callback@.len() == 2,
        ensures
            ({
                let (mv, nums) = s_two_numbers(old(self)@, tokens_view(callback@), fuel as nat);
                final(self)@ == mv && r == nums
            }),
            r is Some ==> crate::numdec::dec_in_range((r->0).0) && crate::numdec::dec_in_range(
                (r->0).1,
            ),
        decreases fuel, 2int, 0int,
    {
        let ghost argsv = tokens_view(callback@);
        let mut cb = callback;
        let second_tok = cb.pop().unwrap();
        let first_tok = cb.pop().unwrap();
        proof {
            assert(first_tok@ == argsv[0]);
            assert(second_tok@ == argsv[1]);
        }
        let first_number = self.token_to_string_fueled(first_tok, fuel);
        let second_number = self.token_to_string_fueled(second_tok, fuel);
        match (parse_string_dec(&first_number), parse_string_dec(&second_number)) {
            (Some(da), Some(db)) => Some((da, db)),
            _ => None,
        }
    }

    /// `+`: the exact sum of the two numbers; non-numbers are reported and
    /// yield nil.
    pub fn add(&mut self, callback: Vec<Token>, fuel: u64) -> (r: Token)
        ensures
            (final(self)@, r@) == s_add(old(self)@, tokens_view(callback@), fuel as nat),
        decreases fuel, 3int, 0int,
    {
        if callback.len() != 2 {
            self.fatal_err(ErrorKind::ArgCount);
            return nil_token();
        }
        match self.two_numbers(callback, fuel) {
            Some((da, db)) => Token::String(render_dec_string(dec_add(da, db))),
            None => {
                self.note_err(ErrorKind::NotANumber);
                nil_token()
            },
        }
    }

    /// `-`: the exact difference of the two numbers.
    pub fn sub(&mut self, callback: Vec<Token>, fuel: u64) -> (r: Token)
        ensures
            (final(self)@, r@) == s_sub(old(self)@, tokens_view(callback@), fuel as nat),
        decreases fuel, 3int, 0int,
    {
        if callback.len() != 2 {
            self.fatal_err(ErrorKind::ArgCount);
            return nil_token();
        }
        match self.two_numbers(callback, fuel) {
            Some((da, db)) => Token::String(render_dec_string(dec_sub(da, db))),
            None => {
                self.note_err(ErrorKind::NotANumber);
                nil_token()
            },
        }
    }

    /// `*`: the exact product of the two numbers.
    pub fn mul(&mut self, callback: Vec<Token>, fuel: u64) -> (r: Token)
        ensures
            (final(self)@, r@) == s_mul(old(self)@, tokens_view(callback@), fuel as nat),
        decreases fuel, 3int, 0int,
    {
        if callback.len() != 2 {
            self.fatal_err(ErrorKind::ArgCount);
            return nil_token();
        }
        match self.two_numbers(callback, fuel) {
            Some((da, db)) => Token::String(render_dec_string(dec_mul(da, db))),
            None => {
                self.note_err(ErrorKind::NotANumber);
                nil_token()
            },
        }
    }

    /// `/`: the quotient of the two numbers; a zero divisor is reported
    /// and yields nil.
    pub fn div(&mut self, callback: Vec<Token>, fuel: u64) -> (r: Token)
        ensures
            (final(self)@, r@) == s_div(old(self)@, tokens_view(callback@), fuel as nat),
        decreases fuel, 3int, 0int,
    {
        if callback.len() != 2 {
            self.fatal_err(ErrorKind::ArgCount);
            return nil_token();
        }
        match self.two_numbers(callback, fuel) {
            Some((da, db)) => {
                match dec_div(da, db) {
                    Some(q) => Token::String(render_dec_string(q)),
                    None => {
                        self.note_err(ErrorKind::DivideByZero);
                        nil_token()
                    },
                }
            },
            None => {
                self.note_err(ErrorKind::NotANumber);
                nil_token()
            },
        }
    }

    /// `%`: the remainder of the two numbers, with the sign of the
    /// dividend; a zero divisor is reported and yields nil.
    pub fn mod_(&mut self, callback: Vec<Token>, fuel: u64) -> (r: Token)
        ensures
            (final(self)@, r@) == s_mod(old(self)@, tokens_view(callback@), fuel as nat),
        decreases fuel, 3int, 0int,
    {
        if callback.len() != 2 {
            self.fatal_err(ErrorKind::ArgCount);
            return nil_token();
        }
        match self.two_numbers(callback, fuel) {
            Some((da, db)) => {
                match dec_mod(da, db) {
                    Some(q) => Token::String(render_dec_string(q)),
                    None => {
                        self.note_err(ErrorKind::DivideByZero);
                        nil_token()
                    },
                }
            },
            None => {
                self.note_err(ErrorKind::NotANumber);
                nil_token()
            },
        }
    }
}

} // verus!
