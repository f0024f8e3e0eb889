//! The loop commands: `for`, `while`.

use crate::machine::is_false;
use crate::machine::nil_token;
use crate::machine::Machine;
use crate::numdec::parse_i32;
use crate::numdec::render_dec_string;
use crate::numdec::Dec;
use crate::parser::copy_token;
use crate::parser::tokens_view;
use crate::parser::Token;
use crate::parser::TokenV;
use crate::semantics::is_falsy;
use crate::semantics::s_eval;
use crate::semantics::s_let;
use crate::semantics::ErrorKind;
use crate::semantics::nil_tok;
use crate::semantics::s_for;
use crate::semantics::s_for_chars;
use crate::semantics::s_for_int;
use crate::semantics::s_while_cmd;
use crate::semantics::s_while_loop;
use crate::semantics::spec_render_int;
use crate::strutil::chars_to_string;
use crate::strutil::str_to_chars;
use vstd::prelude::*;

verus! {

impl Machine {
    /// `for`: over 0..n when the first text parses as a 32-bit integer,
    /// else over the characters of the text; nil when there is no round.
    pub fn for_(&mut self, callback: Vec<Token>, fuel: u64) -> (r: Token)
        ensures
            (final(self)@, r@) == s_for(old(self)@, tokens_view(callback@), fuel as nat),
        decreases fuel, 4int, 0int,
    {
        if callback.len() != 3 {
            self.fatal_err(ErrorKind::ArgCount);
            return nil_token();
        }
        let ghost argsv = tokens_view(callback@);
        let mut cb = callback;
        let do_every_iter = cb.pop().unwrap();
        let name_tok = cb.pop().unwrap();
        let count_tok = cb.pop().unwrap();
        proof {
            assert(count_tok@ == argsv[0]);
            assert(name_tok@ == argsv[1]);
            assert(do_every_iter@ == argsv[2]);
        }
        let will_iterated = self.token_to_string_fueled(count_tok, fuel);
        let variable_name = self.token_to_string_fueled(name_tok, fuel);
        let count_chars = str_to_chars(will_iterated.as_str());
        let ghost bodyv = do_every_iter@;
        let ghost namev = variable_name@;
        let ghost m2 = self@;
        match parse_i32(&count_chars) {
            Some(number) => {
                let rounds: usize = if number > 0 {
                    number as usize
                } else {
                    0
                };
                let mut last = nil_token();
                let mut i: usize = 0;
                while i < rounds
                    invariant
                        i <= rounds,
                        namev == variable_name@,
                        bodyv == do_every_iter@,
                        s_for_int(m2, namev, bodyv, 0, rounds as nat, nil_tok(), fuel as nat)
                            == s_for_int(
                            self@,
                            namev,
                            bodyv,
                            i as nat,
                            rounds as nat,
                            last@,
                            fuel as nat,
                        ),
                    decreases rounds - i,
                {
                    let ghost pre = self@;
                    let ghost prev_last = last@;
                    let ghost bindv = seq![
                        TokenV::Text(namev),
                        TokenV::Text(spec_render_int(false, i as nat)),
                    ];
                    if !is_false(&variable_name) {
                        let rendered = render_dec_string(
                            Dec { neg: false, mant: i as u128, scale: 0 },
                        );
                        proof {
                            assert(rendered@ == spec_render_int(false, i as nat));
                        }
                        let mut bind_args: Vec<Token> = Vec::new();
                        bind_args.push(Token::String(variable_name.clone()));
                        bind_args.push(Token::String(rendered));
                        proof {
                            assert(tokens_view(bind_args@) =~= bindv);
                        }
                        let _ = self.let_(bind_args, fuel);
                        proof {
                            assert(self@ == s_let(pre, bindv, fuel as nat).0);
                        }
                    }
                    let ghost mid = self@;
                    proof {
                        assert(mid == (if !is_falsy(namev) {
                            s_let(pre, bindv, fuel as nat).0
                        } else {
                            pre
                        }));
                    }
                    last = self.process_fueled(copy_token(&do_every_iter), fuel);
                    proof {
                        assert((self@, last@) == s_eval(mid, bodyv, fuel as nat));
                    }
                    proof {
                        assert(s_for_int(
                            pre,
                            namev,
                            bodyv,
                            i as nat,
                            rounds as nat,
                            prev_last,
                            fuel as nat,
                        ) == s_for_int(
                            self@,
                            namev,
                            bodyv,
                            (i + 1) as nat,
                            rounds as nat,
                            last@,
                            fuel as nat,
                        ));
                    }
                    i = i + 1;
                }
                last
            },
            None => {
                let mut last = nil_token();
                let n = count_chars.len();
                let mut i: usize = 0;
                while i < n
                    invariant
                        i <= n,
                        n == count_chars@.len(),
                        count_chars@ == will_iterated@,
                        namev == variable_name@,
                        bodyv == do_every_iter@,
                        s_for_chars(m2, namev, bodyv, will_iterated@, 0, nil_tok(), fuel as nat)
                            == s_for_chars(
                            self@,
                            namev,
                            bodyv,
                            will_iterated@,
                            i as nat,
                            last@,
                            fuel as nat,
                        ),
                    decreases n - i,
                {
                    let ghost pre = self@;
                    let ghost prev_last = last@;
                    let ghost bindv = seq![
                        TokenV::Text(namev),
                        TokenV::Text(seq![will_iterated@[i as int]]),
                    ];
                    let mut one: Vec<char> = Vec::new();
                    one.push(count_chars[i]);
                    proof {
                        assert(one@ =~= seq![will_iterated@[i as int]]);
                    }
                    let ch_string = chars_to_string(&one);
                    let mut bind_args: Vec<Token> = Vec::new();
                    bind_args.push(Token::String(variable_name.clone()));
                    bind_args.push(Token::String(ch_string));
                    proof {
                        assert(tokens_view(bind_args@) =~= bindv);
                    }
                    let _ = self.let_(bind_args, fuel);
                    let ghost mid = self@;
                    proof {
                        assert(mid == s_let(pre, bindv, fuel as nat).0);
                    }
                    last = self.process_fueled(copy_token(&do_every_iter), fuel);
                    proof {
                        assert((self@, last@) == s_eval(mid, bodyv, fuel as nat));
                    }
                    proof {
                        assert(s_for_chars(
                            pre,
                            namev,
                            bodyv,
                            will_iterated@,
                            i as nat,
                            prev_last,
                            fuel as nat,
                        ) == s_for_chars(
                            self@,
                            namev,
                            bodyv,
                            will_iterated@,
                            (i + 1) as nat,
                            last@,
                            fuel as nat,
                        ));
                    }
                    i = i + 1;
                }
                last
            },
        }
    }

    /// `while`: rounds of the body while the condition's text is not
    /// false; every round costs one unit of budget.
    pub fn while_(&mut self, callback: Vec<Token>, fuel: u64) -> (r: Token)
        ensures
            (final(self)@, r@) == s_while_cmd(old(self)@, tokens_view(callback@), fuel as nat),
        decreases fuel, 4int, 0int,
    {
        if callback.len() != 2 {
            self.fatal_err(ErrorKind::ArgCount);
            return nil_token();
        }
        let ghost argsv = tokens_view(callback@);
        let mut cb = callback;
        let do_every_iter = cb.pop().unwrap();
        let checking = cb.pop().unwrap();
        proof {
            assert(checking@ == argsv[0]);
            assert(do_every_iter@ == argsv[1]);
        }
        let ghost condv = checking@;
        let ghost bodyv = do_every_iter@;
        let ghost m0 = self@;
        let mut last = nil_token();
        let mut fl: u64 = fuel;
        loop
            invariant_except_break
                fl <= fuel,
                condv == checking@,
                bodyv == do_every_iter@,
                s_while_loop(m0, condv, bodyv, nil_tok(), fuel as nat) == s_while_loop(
                    self@,
                    condv,
                    bodyv,
                    last@,
                    fl as nat,
                ),
            ensures
                (self@, last@) == s_while_loop(m0, condv, bodyv, nil_tok(), fuel as nat),
            decreases fl,
        {
            if self.halted {
                break ;
            }
            if fl == 0 {
                self.fatal_err(ErrorKind::OutOfFuel);
                break ;
            }
            let ghost pre = self@;
            let ghost prev_last = last@;
            let cond_text = self.token_to_string_fueled(copy_token(&checking), fl - 1);
            if is_false(&cond_text) {
                proof {
                    assert(s_while_loop(pre, condv, bodyv, prev_last, fl as nat) == (
                        self@,
                        prev_last,
                    ));
                }
                break ;
            }
            last = self.process_fueled(copy_token(&do_every_iter), fl - 1);
            proof {
                assert(s_while_loop(pre, condv, bodyv, prev_last, fl as nat) == s_while_loop(
                    self@,
                    condv,
                    bodyv,
                    last@,
                    (fl - 1) as nat,
                ));
            }
            fl = fl - 1;
        }
        last
    }
}

} // verus!
