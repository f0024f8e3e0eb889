//! The cast commands: `float`, `int`, `bool`.

use crate::machine::bool_token;
use crate::machine::nil_token;
use crate::machine::Machine;
use crate::numdec::parse_string_dec;
use crate::numdec::pow10_u128;
use crate::numdec::render_dec_string;
use crate::numdec::Dec;
use crate::parser::tokens_view;
use crate::parser::Token;
use crate::semantics::ErrorKind;
use crate::semantics::s_bool;
use crate::semantics::s_float;
use crate::semantics::s_int;
use crate::semantics::spec_render_int;
use crate::strutil::string_eq_str;
use vstd::prelude::*;

verus! {

/// The token of the text of a small nonnegative integer.
fn int_token(n: u128) -> (r: Token)
    ensures
        r@ == crate::parser::TokenV::Text(spec_render_int(false, n as nat)),
{
    Token::String(render_dec_string(Dec { neg: false, mant: n, scale: 0 }))
}

impl Machine {
    /// `float`: the text brought to canonical numeric form; the words
    /// `true`, `false` and `nil` count as one, zero and zero; anything
    /// else is nil.
    pub fn float(&mut self, callback: Vec<Token>, fuel: u64) -> (r: Token)
        ensures
            (final(self)@, r@) == s_float(old(self)@, tokens_view(callback@), fuel as nat),
        decreases fuel, 2int, 0int,
    {
        if callback.len() != 1 {
            self.fatal_err(ErrorKind::ArgCount);
            return nil_token();
        }
        let ghost argsv = tokens_view(callback@);
        let mut cb = callback;
        let first_tok = cb.pop().unwrap();
        proof {
            assert(first_tok@ == argsv[0]);
        }
        let will_converted = self.token_to_string_fueled(first_tok, fuel);
        if string_eq_str(&will_converted, "true") {
            int_token(1)
        } else if string_eq_str(&will_converted, "false") || string_eq_str(&will_converted, "nil") {
            int_token(0)
        } else {
            match parse_string_dec(&will_converted) {
                Some(d) => Token::String(render_dec_string(d)),
                None => nil_token(),
            }
        }
    }

    /// `int`: the text truncated toward zero and saturated to 32-bit
    /// range; the words `true`, `false` and `nil` count as one, zero and
    /// zero; anything else is nil.
    pub fn int_(&mut self, callback: Vec<Token>, fuel: u64) -> (r: Token)
        ensures
            (final(self)@, r@) == s_int(old(self)@, tokens_view(callback@), fuel as nat),
        decreases fuel, 2int, 0int,
    {
        if callback.len() != 1 {
            self.fatal_err(ErrorKind::ArgCount);
            return nil_token();
        }
        let ghost argsv = tokens_view(callback@);
        let mut cb = callback;
        let first_tok = cb.pop().unwrap();
        proof {
            assert(first_tok@ == argsv[0]);
        }
        let will_converted = self.token_to_string_fueled(first_tok, fuel);
        if string_eq_str(&will_converted, "true") {
            int_token(1)
        } else if string_eq_str(&will_converted, "false") || string_eq_str(&will_converted, "nil") {
            int_token(0)
        } else {
            match parse_string_dec(&will_converted) {
                Some(d) => {
                    let t: u128 = d.mant / pow10_u128(d.scale);
                    if d.neg {
                        let mag: u128 = if t >= 0x80000000 {
                            0x80000000
                        } else {
                            t
                        };
                        Token::String(render_dec_string(Dec { neg: true, mant: mag, scale: 0 }))
                    } else {
                        let mag: u128 = if t >= 0x7fffffff {
                            0x7fffffff
                        } else {
                            t
                        };
                        Token::String(render_dec_string(Dec { neg: false, mant: mag, scale: 0 }))
                    }
                },
                None => nil_token(),
            }
        }
    }

    /// `bool`: whether the text is a nonzero number; the words `true`,
    /// `false` and `nil` map directly; anything else is nil.
    pub fn bool(&mut self, callback: Vec<Token>, fuel: u64) -> (r: Token)
        ensures
            (final(self)@, r@) == s_bool(old(self)@, tokens_view(callback@), fuel as nat),
        decreases fuel, 2int, 0int,
    {
        if callback.len() != 1 {
            self.fatal_err(ErrorKind::ArgCount);
            return nil_token();
        }
        let ghost argsv = tokens_view(callback@);
        let mut cb = callback;
        let first_tok = cb.pop().unwrap();
        proof {
            assert(first_tok@ == argsv[0]);
        }
        let will_converted = self.token_to_string_fueled(first_tok, fuel);
        if string_eq_str(&will_converted, "true") {
            bool_token(true)
        } else if string_eq_str(&will_converted, "false") || string_eq_str(&will_converted, "nil") {
            bool_token(false)
        } else {
            match parse_string_dec(&will_converted) {
                Some(d) => bool_token(d.mant != 0),
                None => nil_token(),
            }
        }
    }
}

} // verus!
