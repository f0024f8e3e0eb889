//! The `import` command: a preloaded module source is parsed and fully
//! evaluated in an emptied environment, and its public entries join the
//! caller's stores under path-qualified names.

use crate::machine::funcs_view;
use crate::machine::libs_view;
use crate::machine::nil_token;
use crate::machine::vars_view;
use crate::machine::DynamicLibraryData;
use crate::machine::FunctionEntry;
use crate::machine::Machine;
use crate::machine::VariableData;
use crate::parser::copy_token;
use crate::parser::tokens_view;
use crate::parser::Parser;
use crate::parser::Token;
use crate::semantics::ErrorKind;
use crate::semantics::FunV;
use crate::semantics::LibV;
use crate::semantics::VarV;
use crate::semantics::merge_funcs;
use crate::semantics::merge_libs;
use crate::semantics::merge_vars;
use crate::semantics::qualified;
use crate::semantics::s_import;
use crate::semantics::s_run;
use vstd::prelude::*;
use vstd::string::StringExecFns;

verus! {

/// The path-qualified key of a merged entry.
fn qualify(path: &String, key: &String) -> (r: String)
    ensures
        r@ == qualified(path@, key@),
{
    let mut q = path.clone();
    q.append("/");
    q.append(key.as_str());
    proof {
        reveal_strlit("/");
        assert("/"@ =~= seq!['/']);
        assert(q@ =~= qualified(path@, key@));
    }
    q
}

impl Machine {
    /// `import`: see the module documentation. A missing module source or
    /// a module that fails to parse is fatal.
    pub fn import(&mut self, callback: Vec<Token>, fuel: u64) -> (r: Token)
        ensures
            (final(self)@, r@) == s_import(old(self)@, tokens_view(callback@), fuel as nat),
        decreases fuel, 6int, 0int,
    {
        if callback.len() == 0 {
            self.fatal_err(ErrorKind::ArgCount);
            return nil_token();
        }
        let ghost argsv = tokens_view(callback@);
        let mut cb = callback;
        let last_tok = cb.pop().unwrap();
        proof {
            assert(last_tok@ == argsv[argsv.len() - 1]);
        }
        let path = self.token_to_string_fueled(last_tok, fuel);
        let module_index = match self.find_module(&path) {
            None => {
                self.fatal_err(ErrorKind::MissingModule);
                return nil_token();
            },
            Some(i) => i,
        };
        let source = self.modules[module_index].source.clone();
        let mut module_parser = Parser::new(source.as_str());
        module_parser.parse();
        if module_parser.error.is_some() {
            self.fatal_err(ErrorKind::Syntax);
            return nil_token();
        }
        let ghost m1 = self@;
        // the module runs in an emptied environment
        let mut saved_vars: Vec<VariableData> = Vec::new();
        let mut saved_funcs: Vec<FunctionEntry> = Vec::new();
        let mut saved_libs: Vec<DynamicLibraryData> = Vec::new();
        core::mem::swap(&mut saved_vars, &mut self.variables);
        core::mem::swap(&mut saved_funcs, &mut self.functions);
        core::mem::swap(&mut saved_libs, &mut self.dynamic_libs);
        proof {
            assert(vars_view(self.variables@) =~= Seq::<VarV>::empty());
            assert(funcs_view(self.functions@) =~= Seq::<FunV>::empty());
            assert(libs_view(self.dynamic_libs@) =~= Seq::<LibV>::empty());
        }
        let ghost sub0 = self@;
        let ghost cmds = tokens_view(module_parser.output@);
        let n = module_parser.output.len();
        let mut i: usize = 0;
        while i < n
            invariant
                i <= n,
                n == module_parser.output@.len(),
                cmds == tokens_view(module_parser.output@),
                s_run(sub0, cmds, 0, fuel as nat) == s_run(self@, cmds, i as nat, fuel as nat),
            decreases n - i,
        {
            let t = copy_token(&module_parser.output[i]);
            let ghost pre = self@;
            let _ = self.process_fueled(t, fuel);
            proof {
                assert(s_run(pre, cmds, i as nat, fuel as nat) == s_run(
                    self@,
                    cmds,
                    (i + 1) as nat,
                    fuel as nat,
                ));
            }
            i = i + 1;
        }
        let ghost sub = self@;
        if self.halted {
            self.variables = saved_vars;
            self.functions = saved_funcs;
            self.dynamic_libs = saved_libs;
            return nil_token();
        }
        // the sub-environment is taken out and the saved one put back
        let mut sub_vars: Vec<VariableData> = Vec::new();
        let mut sub_funcs: Vec<FunctionEntry> = Vec::new();
        let mut sub_libs: Vec<DynamicLibraryData> = Vec::new();
        core::mem::swap(&mut sub_vars, &mut self.variables);
        core::mem::swap(&mut sub_funcs, &mut self.functions);
        core::mem::swap(&mut sub_libs, &mut self.dynamic_libs);
        self.variables = saved_vars;
        self.functions = saved_funcs;
        self.dynamic_libs = saved_libs;
        let ghost subvars = sub.vars;
        let ghost subfuncs = sub.funcs;
        let ghost sublibs = sub.libs;
        proof {
            assert(vars_view(sub_vars@) =~= subvars);
            assert(funcs_view(sub_funcs@) =~= subfuncs);
            assert(libs_view(sub_libs@) =~= sublibs);
        }
        // public variables merge under qualified names
        let mut vi: usize = 0;
        let nv = sub_vars.len();
        while vi < nv
            invariant
                vi <= nv,
                nv == subvars.len(),
                sub_vars@.len() == nv - vi,
                vars_view(sub_vars@) == subvars.subrange(vi as int, nv as int),
                self@.vars == merge_vars(m1.vars, subvars.subrange(0, vi as int), path@),
                self@.funcs == m1.funcs,
                self@.libs == m1.libs,
                self@.files == sub.files,
                self@.modules == sub.modules,
                self@.inputs == sub.inputs,
                self@.output == sub.output,
                self@.errors == sub.errors,
                self@.halted == sub.halted,
                self@.instructions == sub.instructions,
            decreases nv - vi,
        {
            let ghost remaining = subvars.subrange(vi as int, nv as int);
            let ghost prefix = subvars.subrange(0, vi as int);
            let ghost cur = subvars.subrange(0, vi + 1);
            let v = sub_vars.remove(0);
            proof {
                assert(v@ == remaining[0]);
                assert(v@ == subvars[vi as int]);
                assert(vars_view(sub_vars@) =~= remaining.drop_first());
                assert(remaining.drop_first() =~= subvars.subrange(vi + 1, nv as int));
                assert(cur.drop_last() =~= prefix);
                assert(cur.last() == subvars[vi as int]);
            }
            if v.public {
                let q = qualify(&path, &v.key);
                self.remove_variable(&q);
                let ghost pre = self@;
                self.variables.push(
                    VariableData {
                        key: q,
                        value: v.value,
                        ref_count: v.ref_count,
                        public: v.public,
                    },
                );
                proof {
                    assert(vars_view(self.variables@) =~= pre.vars.push(self.variables@.last()@));
                    assert(self@.vars == merge_vars(m1.vars, cur, path@));
                }
            } else {
                proof {
                    assert(self@.vars == merge_vars(m1.vars, cur, path@));
                }
            }
            vi = vi + 1;
        }
        proof {
            assert(subvars.subrange(0, nv as int) =~= subvars);
        }
        // public functions merge under qualified names
        let mut fi: usize = 0;
        let nf = sub_funcs.len();
        while fi < nf
            invariant
                fi <= nf,
                nf == subfuncs.len(),
                sub_funcs@.len() == nf - fi,
                funcs_view(sub_funcs@) == subfuncs.subrange(fi as int, nf as int),
                self@.funcs == merge_funcs(m1.funcs, subfuncs.subrange(0, fi as int), path@),
                self@.vars == merge_vars(m1.vars, subvars, path@),
                self@.libs == m1.libs,
                self@.files == sub.files,
                self@.modules == sub.modules,
                self@.inputs == sub.inputs,
                self@.output == sub.output,
                self@.errors == sub.errors,
                self@.halted == sub.halted,
                self@.instructions == sub.instructions,
            decreases nf - fi,
        {
            let ghost remaining = subfuncs.subrange(fi as int, nf as int);
            let ghost prefix = subfuncs.subrange(0, fi as int);
            let ghost cur = subfuncs.subrange(0, fi + 1);
            let f = sub_funcs.remove(0);
            proof {
                assert(f@ == remaining[0]);
                assert(f@ == subfuncs[fi as int]);
                assert(funcs_view(sub_funcs@) =~= remaining.drop_first());
                assert(remaining.drop_first() =~= subfuncs.subrange(fi + 1, nf as int));
                assert(cur.drop_last() =~= prefix);
                assert(cur.last() == subfuncs[fi as int]);
            }
            if f.data.public {
                let q = qualify(&path, &f.key);
                self.remove_function(&q);
                let ghost pre = self@;
                self.functions.push(FunctionEntry { key: q, data: f.data });
                proof {
                    assert(funcs_view(self.functions@) =~= pre.funcs.push(
                        self.functions@.last()@,
                    ));
                    assert(self@.funcs == merge_funcs(m1.funcs, cur, path@));
                }
            } else {
                proof {
                    assert(self@.funcs == merge_funcs(m1.funcs, cur, path@));
                }
            }
            fi = fi + 1;
        }
        proof {
            assert(subfuncs.subrange(0, nf as int) =~= subfuncs);
        }
        // public libraries merge under qualified names
        let mut li: usize = 0;
        let nl = sub_libs.len();
        while li < nl
            invariant
                li <= nl,
                nl == sublibs.len(),
                sub_libs@.len() == nl - li,
                libs_view(sub_libs@) == sublibs.subrange(li as int, nl as int),
                self@.libs == merge_libs(m1.libs, sublibs.subrange(0, li as int), path@),
                self@.vars == merge_vars(m1.vars, subvars, path@),
                self@.funcs == merge_funcs(m1.funcs, subfuncs, path@),
                self@.files == sub.files,
                self@.modules == sub.modules,
                self@.inputs == sub.inputs,
                self@.output == sub.output,
                self@.errors == sub.errors,
                self@.halted == sub.halted,
                self@.instructions == sub.instructions,
            decreases nl - li,
        {
            let ghost remaining = sublibs.subrange(li as int, nl as int);
            let ghost prefix = sublibs.subrange(0, li as int);
            let ghost cur = sublibs.subrange(0, li + 1);
            let l = sub_libs.remove(0);
            proof {
                assert(l@ == remaining[0]);
                assert(l@ == sublibs[li as int]);
                assert(libs_view(sub_libs@) =~= remaining.drop_first());
                assert(remaining.drop_first() =~= sublibs.subrange(li + 1, nl as int));
                assert(cur.drop_last() =~= prefix);
                assert(cur.last() == sublibs[li as int]);
            }
            if l.public {
                let q = qualify(&path, &l.key);
                self.remove_library(&q);
                let ghost pre = self@;
                self.dynamic_libs.push(
                    DynamicLibraryData { key: q, path: l.path, public: l.public },
                );
                proof {
                    assert(libs_view(self.dynamic_libs@) =~= pre.libs.push(
                        self.dynamic_libs@.last()@,
                    ));
                    assert(self@.libs == merge_libs(m1.libs, cur, path@));
                }
            } else {
                proof {
                    assert(self@.libs == merge_libs(m1.libs, cur, path@));
                }
            }
            li = li + 1;
        }
        proof {
            assert(sublibs.subrange(0, nl as int) =~= sublibs);
        }
        Token::String(path)
    }
}

} // verus!
