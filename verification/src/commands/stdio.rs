//! The text-assembly and host-facing commands: concatenation, `print`,
//! `input`, `sleep`.

use crate::machine::empty_token;
use crate::machine::nil_token;
use crate::machine::strings_view;
use crate::machine::Machine;
use crate::parser::copy_token;
use crate::parser::tokens_view;
use crate::parser::Token;
use crate::semantics::ErrorKind;
use crate::semantics::s_concat;
use crate::semantics::s_gather;
use crate::semantics::s_input;
use crate::semantics::s_print;
use crate::semantics::s_sleep;
use crate::semantics::spec_join;
use vstd::prelude::*;
use vstd::string::StringExecFns;

verus! {

/// The texts joined with a single space between neighbours.
fn join_spaces(parts: &Vec<String>) -> (r: String)
    ensures
        r@ == spec_join(strings_view(parts@)),
{
    let mut out = String::new();
    let n = parts.len();
    let mut i: usize = 0;
    proof {
        assert(out@ =~= Seq::<char>::empty());
        assert(strings_view(parts@.subrange(0, 0)) =~= Seq::<Seq<char>>::empty());
    }
    while i < n
        invariant
            i <= n,
            n == parts@.len(),
            out@ == spec_join(strings_view(parts@.subrange(0, i as int))),
        decreases n - i,
    {
        let ghost prevs = strings_view(parts@.subrange(0, i as int));
        if i > 0 {
            out.append(" ");
            proof {
                reveal_strlit(" ");
                assert(" "@ =~= seq![' ']);
            }
        }
        out.append(parts[i].as_str());
        proof {
            let curs = strings_view(parts@.subrange(0, i + 1));
            assert(curs.drop_last() =~= prevs);
            assert(curs.last() == parts@[i as int]@);
            if i == 0 {
                assert(curs.len() == 1);
                assert(out@ =~= curs[0]);
            } else {
                assert(out@ =~= spec_join(prevs) + seq![' '] + parts@[i as int]@);
            }
        }
        i = i + 1;
    }
    proof {
        assert(parts@.subrange(0, n as int) =~= parts@);
    }
    out
}

impl Machine {
    /// The argument texts gathered left to right: strings directly,
    /// commands through their evaluation, anything else skipped.
    fn gather(&mut self, callback: &Vec<Token>, fuel: u64) -> (r: Vec<String>)
        ensures
            (final(self)@, strings_view(r@)) == s_gather(
                old(self)@,
                tokens_view(callback@),
                0,
                Seq::empty(),
                fuel as nat,
            ),
        decreases fuel, 2int, 0int,
    {
        let ghost argsv = tokens_view(callback@);
        let ghost m0 = self@;
        let mut parts: Vec<String> = Vec::new();
        let n = callback.len();
        let mut i: usize = 0;
        proof {
            assert(strings_view(parts@) =~= Seq::<Seq<char>>::empty());
        }
        while i < n
            invariant
                i <= n,
                n == callback@.len(),
                argsv == tokens_view(callback@),
                s_gather(m0, argsv, 0, Seq::empty(), fuel as nat) == s_gather(
                    self@,
                    argsv,
                    i as nat,
                    strings_view(parts@),
                    fuel as nat,
                ),
            decreases n - i,
        {
            let ghost pre = self@;
            let ghost prev_parts = strings_view(parts@);
            let is_string = match &callback[i] {
                Token::String(_) => true,
                _ => false,
            };
            let is_command = match &callback[i] {
                Token::Command(_) => true,
                _ => false,
            };
            if is_string {
                match &callback[i] {
                    Token::String(s) => {
                        parts.push(s.clone());
                        proof {
                            assert(strings_view(parts@) =~= prev_parts.push(
                                argsv[i as int]->Text_0,
                            ));
                        }
                    },
                    _ => {},
                }
            } else if is_command {
                let t = copy_token(&callback[i]);
                let evaluated = self.process_fueled(t, fuel);
                match evaluated {
                    Token::String(s) => {
                        parts.push(s);
                        proof {
                            assert(strings_view(parts@) =~= prev_parts.push(
                                parts@.last()@,
                            ));
                        }
                    },
                    _ => {},
                }
            }
            proof {
                assert(s_gather(pre, argsv, i as nat, prev_parts, fuel as nat) == s_gather(
                    self@,
                    argsv,
                    (i + 1) as nat,
                    strings_view(parts@),
                    fuel as nat,
                ));
            }
            i = i + 1;
        }
        parts
    }

    /// Concatenation (the empty command name): the argument texts joined
    /// with single spaces.
    pub fn concat(&mut self, callback: Vec<Token>, fuel: u64) -> (r: Token)
        ensures
            (final(self)@, r@) == s_concat(old(self)@, tokens_view(callback@), fuel as nat),
        decreases fuel, 3int, 0int,
    {
        let parts = self.gather(&callback, fuel);
        Token::String(join_spaces(&parts))
    }

    /// `print`: the argument texts joined with spaces, appended to the
    /// output trace, and returned.
    pub fn print(&mut self, callback: Vec<Token>, fuel: u64) -> (r: Token)
        ensures
            (final(self)@, r@) == s_print(old(self)@, tokens_view(callback@), fuel as nat),
        decreases fuel, 3int, 0int,
    {
        let parts = self.gather(&callback, fuel);
        let line = join_spaces(&parts);
        let ghost pre = self@;
        self.output.push(line.clone());
        proof {
            assert(strings_view(self.output@) =~= pre.output.push(line@));
        }
        Token::String(line)
    }

    /// `input`: the prompt joins the output trace; the next queued input
    /// line is consumed and returned, or the empty text when none is
    /// queued.
    pub fn input(&mut self, callback: Vec<Token>, fuel: u64) -> (r: Token)
        ensures
            (final(self)@, r@) == s_input(old(self)@, tokens_view(callback@), fuel as nat),
        decreases fuel, 2int, 0int,
    {
        if callback.len() != 1 {
            self.fatal_err(ErrorKind::ArgCount);
            return nil_token();
        }
        let ghost argsv = tokens_view(callback@);
        let mut cb = callback;
        let first_tok = cb.pop().unwrap();
        proof {
            assert(first_tok@ == argsv[0]);
        }
        let prompt = self.token_to_string_fueled(first_tok, fuel);
        let ghost pre = self@;
        self.output.push(prompt);
        proof {
            assert(strings_view(self.output@) =~= pre.output.push(
                strings_view(self.output@).last(),
            ));
        }
        if self.inputs.len() > 0 {
            let ghost pre2 = self@;
            let line = self.inputs.remove(0);
            proof {
                assert(strings_view(self.inputs@) =~= pre2.inputs.drop_first());
            }
            Token::String(line)
        } else {
            empty_token()
        }
    }

    /// `sleep`: the argument is coerced; the machine itself never blocks,
    /// so the command only yields nil.
    pub fn sleep(&mut self, callback: Vec<Token>, fuel: u64) -> (r: Token)
        ensures
            (final(self)@, r@) == s_sleep(old(self)@, tokens_view(callback@), fuel as nat),
        decreases fuel, 2int, 0int,
    {
        if callback.len() != 1 {
            self.fatal_err(ErrorKind::ArgCount);
            return nil_token();
        }
        let ghost argsv = tokens_view(callback@);
        let mut cb = callback;
        let first_tok = cb.pop().unwrap();
        proof {
            assert(first_tok@ == argsv[0]);
        }
        let _ = self.token_to_string_fueled(first_tok, fuel);
        nil_token()
    }
}

} // verus!
