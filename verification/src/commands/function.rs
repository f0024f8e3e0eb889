//! The function commands: `do`, `function`, `call`, `pubf`.

use crate::machine::empty_token;
use crate::machine::funcs_view;
use crate::machine::nil_token;
use crate::machine::strings_view;
use crate::machine::FunctionData;
use crate::machine::FunctionEntry;
use crate::machine::Machine;
use crate::parser::copy_token;
use crate::parser::lemma_args_view_is_pointwise;
use crate::parser::tokens_view;
use crate::parser::Token;
use crate::parser::TokenV;
use crate::semantics::ErrorKind;
use crate::semantics::nil_tok;
use crate::semantics::param_names;
use crate::semantics::s_bind_loop;
use crate::semantics::s_call;
use crate::semantics::s_do;
use crate::semantics::s_do_loop;
use crate::semantics::s_function;
use crate::semantics::s_pubf;
use crate::semantics::text_items;
use vstd::prelude::*;
use vstd::string::StrSliceExecFns;

verus! {

/// The texts of the plain string tokens of a vector, in order.
fn collect_text_items(args: &Vec<Token>) -> (r: Vec<String>)
    ensures
        strings_view(r@) == text_items(tokens_view(args@)),
{
    let mut out: Vec<String> = Vec::new();
    let n = args.len();
    let mut i: usize = 0;
    proof {
        assert(strings_view(out@) =~= text_items(tokens_view(args@.subrange(0, 0))));
    }
    while i < n
        invariant
            i <= n,
            n == args@.len(),
            strings_view(out@) == text_items(tokens_view(args@.subrange(0, i as int))),
        decreases n - i,
    {
        let ghost prev = out@;
        match &args[i] {
            Token::String(s) => {
                out.push(s.clone());
            },
            _ => {},
        }
        proof {
            let pre = tokens_view(args@.subrange(0, i as int));
            let cur = tokens_view(args@.subrange(0, i + 1));
            assert(cur.drop_last() =~= pre);
            assert(cur.last() == args@[i as int]@);
            if args@[i as int] is String {
                assert(strings_view(out@) =~= strings_view(prev).push(
                    args@[i as int]->String_0@,
                ));
            }
        }
        i = i + 1;
    }
    proof {
        assert(args@.subrange(0, n as int) =~= args@);
    }
    out
}

/// The declared parameter names of a `function` command's argument list.
fn extract_params(t: &Token) -> (r: Vec<String>)
    ensures
        strings_view(r@) == param_names(t@),
{
    match t {
        Token::Command(c) => {
            if c.name.as_str().unicode_len() == 0 {
                proof {
                    assert(c.name@ =~= Seq::<char>::empty());
                    lemma_args_view_is_pointwise(c.arguments@);
                }
                collect_text_items(&c.arguments)
            } else {
                let r: Vec<String> = Vec::new();
                proof {
                    assert(strings_view(r@) =~= Seq::<Seq<char>>::empty());
                }
                r
            }
        },
        _ => {
            let r: Vec<String> = Vec::new();
            proof {
                assert(strings_view(r@) =~= Seq::<Seq<char>>::empty());
            }
            r
        },
    }
}

/// The texts of a string vector, copied.
fn copy_strings(v: &Vec<String>) -> (r: Vec<String>)
    ensures
        strings_view(r@) == strings_view(v@),
{
    let mut out: Vec<String> = Vec::new();
    let mut i: usize = 0;
    while i < v.len()
        invariant
            i <= v@.len(),
            out@.len() == i,
            forall|j: int| 0 <= j < i ==> out@[j]@ == v@[j]@,
        decreases v@.len() - i,
    {
        out.push(v[i].clone());
        i = i + 1;
    }
    proof {
        assert(strings_view(out@) =~= strings_view(v@));
    }
    out
}

impl Machine {
    /// `do`: each argument evaluated in order; the last result is returned.
    pub fn do_(&mut self, callback: Vec<Token>, fuel: u64) -> (r: Token)
        ensures
            (final(self)@, r@) == s_do(old(self)@, tokens_view(callback@), fuel as nat),
        decreases fuel, 3int, 0int,
    {
        if callback.len() == 0 {
            self.fatal_err(ErrorKind::ArgCount);
            return nil_token();
        }
        let ghost argsv = tokens_view(callback@);
        let ghost m0 = self@;
        let mut last = nil_token();
        let n = callback.len();
        let mut i: usize = 0;
        while i < n
            invariant
                i <= n,
                n == callback@.len(),
                argsv == tokens_view(callback@),
                s_do_loop(m0, argsv, 0, nil_tok(), fuel as nat) == s_do_loop(
                    self@,
                    argsv,
                    i as nat,
                    last@,
                    fuel as nat,
                ),
            decreases n - i,
        {
            let t = copy_token(&callback[i]);
            let ghost pre = self@;
            let ghost prev_last = last@;
            last = self.process_fueled(t, fuel);
            proof {
                assert(s_do_loop(pre, argsv, i as nat, prev_last, fuel as nat) == s_do_loop(
                    self@,
                    argsv,
                    (i + 1) as nat,
                    last@,
                    fuel as nat,
                ));
            }
            i = i + 1;
        }
        last
    }

    /// `function`: the named function is defined or replaced; its
    /// parameters are the plain strings of the anonymous command in second
    /// position, and its body is stored unevaluated.
    pub fn function(&mut self, callback: Vec<Token>, fuel: u64) -> (r: Token)
        ensures
            (final(self)@, r@) == s_function(old(self)@, tokens_view(callback@), fuel as nat),
        decreases fuel, 2int, 0int,
    {
        if callback.len() != 3 {
            self.fatal_err(ErrorKind::ArgCount);
            return nil_token();
        }
        let ghost argsv = tokens_view(callback@);
        let mut cb = callback;
        let given_command = cb.pop().unwrap();
        let arguments_token = cb.pop().unwrap();
        let first_arg = cb.pop().unwrap();
        proof {
            assert(first_arg@ == argsv[0]);
            assert(arguments_token@ == argsv[1]);
            assert(given_command@ == argsv[2]);
        }
        let function_name = self.token_to_string_fueled(first_arg, fuel);
        let params = extract_params(&arguments_token);
        self.remove_function(&function_name);
        let ghost pre = self@;
        self.functions.push(
            FunctionEntry { key: function_name, data: FunctionData::new(given_command, params) },
        );
        proof {
            assert(funcs_view(self.functions@) =~= pre.funcs.push(self.functions@.last()@));
        }
        nil_token()
    }

    /// `pubf`: the export flag of the function is toggled.
    pub fn pubf(&mut self, callback: Vec<Token>, fuel: u64) -> (r: Token)
        ensures
            (final(self)@, r@) == s_pubf(old(self)@, tokens_view(callback@), fuel as nat),
        decreases fuel, 2int, 0int,
    {
        if callback.len() != 1 {
            self.fatal_err(ErrorKind::ArgCount);
            return nil_token();
        }
        let ghost argsv = tokens_view(callback@);
        let mut cb = callback;
        let first_arg = cb.pop().unwrap();
        proof {
            assert(first_arg@ == argsv[0]);
        }
        let function_name = self.token_to_string_fueled(first_arg, fuel);
        match self.find_function(&function_name) {
            None => {
                self.note_err(ErrorKind::MissingFunction);
                nil_token()
            },
            Some(i) => {
                let ghost pre = self@;
                let mut f = self.functions.remove(i);
                f.data.public = !f.data.public;
                let ghost after = f@;
                self.functions.insert(i, f);
                proof {
                    assert(funcs_view(self.functions@) =~= pre.funcs.update(i as int, after));
                }
                nil_token()
            },
        }
    }

    /// `call`: the named function's formals are bound to the remaining
    /// arguments and its body is evaluated.
    pub fn call(&mut self, callback: Vec<Token>, fuel: u64) -> (r: Token)
        ensures
            (final(self)@, r@) == s_call(old(self)@, tokens_view(callback@), fuel as nat),
        decreases fuel, 4int, 0int,
    {
        if callback.len() == 0 {
            self.fatal_err(ErrorKind::ArgCount);
            return nil_token();
        }
        let ghost argsv = tokens_view(callback@);
        let mut cb = callback;
        let first_arg = cb.remove(0);
        proof {
            assert(first_arg@ == argsv[0]);
            assert(tokens_view(cb@) =~= argsv.drop_first());
        }
        let ghost restv = tokens_view(cb@);
        let function_name = self.token_to_string_fueled(first_arg, fuel);
        match self.find_function(&function_name) {
            None => {
                self.note_err(ErrorKind::MissingFunction);
                empty_token()
            },
            Some(i) => {
                let params = copy_strings(&self.functions[i].data.arguments);
                let body = self.functions[i].data.get();
                if cb.len() != params.len() {
                    self.note_err(ErrorKind::ArityMismatch);
                    return empty_token();
                }
                let ghost paramsv = strings_view(params@);
                let ghost m1 = self@;
                let n = params.len();
                let mut k: usize = 0;
                while k < n
                    invariant
                        k <= n,
                        n == params@.len(),
                        n == cb@.len(),
                        paramsv == strings_view(params@),
                        restv == tokens_view(cb@),
                        s_bind_loop(m1, paramsv, restv, 0, fuel as nat) == s_bind_loop(
                            self@,
                            paramsv,
                            restv,
                            k as nat,
                            fuel as nat,
                        ),
                    decreases n - k,
                {
                    let mut bind_args: Vec<Token> = Vec::new();
                    bind_args.push(Token::String(params[k].clone()));
                    bind_args.push(copy_token(&cb[k]));
                    proof {
                        assert(tokens_view(bind_args@) =~= seq![
                            TokenV::Text(paramsv[k as int]),
                            restv[k as int],
                        ]);
                    }
                    let ghost pre = self@;
                    let _ = self.let_(bind_args, fuel);
                    proof {
                        assert(s_bind_loop(pre, paramsv, restv, k as nat, fuel as nat)
                            == s_bind_loop(self@, paramsv, restv, (k + 1) as nat, fuel as nat));
                    }
                    k = k + 1;
                }
                self.process_fueled(body, fuel)
            },
        }
    }
}

} // verus!
