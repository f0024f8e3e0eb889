//! The tree-walking evaluator and its environment store.
//!
//! A machine owns a program (a sequence of parsed tokens) and three
//! key-indexed stores — variables, user functions, native-library
//! registrations — together with a virtual file store, a preloaded module
//! store for `import`, a queue of input lines, an output trace of printed
//! lines, and a log of reported errors. A fatal error stops the machine:
//! once `halted` is set, every operation leaves the state unchanged.
//!
//! Each method is proved to compute exactly the corresponding
//! specification function of `semantics`.

use crate::parser::lemma_args_view_is_pointwise;
use crate::parser::tokens_view;
use crate::parser::Token;
use crate::parser::TokenV;
use crate::semantics::DEFAULT_FUEL;
use crate::semantics::ErrorKind;
use crate::semantics::FunV;
use crate::semantics::LibV;
use crate::semantics::MachineV;
use crate::semantics::VarV;
use crate::semantics::bool_seq;
use crate::semantics::bump_count;
use crate::semantics::drop_file;
use crate::semantics::drop_fun;
use crate::semantics::drop_lib;
use crate::semantics::drop_var;
use crate::semantics::empty_tok;
use crate::semantics::find_fun;
use crate::semantics::find_lib;
use crate::semantics::find_pair;
use crate::semantics::find_var;
use crate::semantics::halt;
use crate::semantics::is_falsy;
use crate::semantics::nil_seq;
use crate::semantics::nil_tok;
use crate::semantics::report;
use crate::semantics::s_dispatch;
use crate::semantics::s_eval;
use crate::semantics::s_run;
use crate::semantics::s_tts;
use crate::semantics::s_whole;
use crate::strutil::string_eq_str;
use vstd::prelude::*;
use vstd::string::StringExecFns;

verus! {

/// A stored variable: its key, its owned text, how many reads remain, and
/// whether an `import` exports it.
#[derive(Debug)]
pub struct VariableData {
    pub key: String,
    pub value: String,
    pub ref_count: usize,
    pub public: bool,
}

impl View for VariableData {
    type V = VarV;

    open spec fn view(&self) -> VarV {
        VarV {
            key: self.key@,
            value: self.value@,
            ref_count: self.ref_count as nat,
            public: self.public,
        }
    }
}

impl VariableData {
    /// A fresh variable: one permitted read, not exported.
    pub fn new(key: String, value: String) -> (r: VariableData)
        ensures
            r@ == (VarV { key: key@, value: value@, ref_count: 1, public: false }),
    {
        VariableData { key, value, ref_count: 1, public: false }
    }

    /// One read: the last permitted read takes the text out and leaves the
    /// budget at zero; a spent variable yields the nil text; otherwise the
    /// text is copied out and the budget drops by one.
    pub fn get(&mut self) -> (r: String)
        ensures
            old(self).ref_count == 1 ==> r@ == old(self)@.value && final(self)@ == (VarV {
                value: Seq::empty(),
                ref_count: 0,
                ..old(self)@
            }),
            old(self).ref_count == 0 ==> r@ == nil_seq() && final(self)@ == old(self)@,
            old(self).ref_count > 1 ==> r@ == old(self)@.value && final(self)@ == (VarV {
                ref_count: (old(self)@.ref_count - 1) as nat,
                ..old(self)@
            }),
    {
        if self.ref_count == 1 {
            let mut taken = String::new();
            core::mem::swap(&mut taken, &mut self.value);
            self.ref_count = 0;
            taken
        } else if self.ref_count < 1 {
            let r = String::from_str("nil");
            r
        } else {
            self.ref_count = self.ref_count - 1;
            self.value.clone()
        }
    }

    /// One more permitted read (stopping at the machine limit).
    pub fn upgrade(&mut self)
        ensures
            final(self)@ == (VarV { ref_count: bump_count(old(self)@.ref_count), ..old(self)@ }),
    {
        if self.ref_count < usize::MAX {
            self.ref_count = self.ref_count + 1;
        }
    }
}

/// A stored user function: its formal parameter names, its body held
/// unevaluated, and whether an `import` exports it.
#[derive(Debug)]
pub struct FunctionData {
    pub arguments: Vec<String>,
    pub public: bool,
    pub value: Token,
}

/// The views of the elements of a string sequence.
pub open spec fn strings_view(s: Seq<String>) -> Seq<Seq<char>> {
    Seq::new(s.len(), |i: int| s[i]@)
}

impl FunctionData {
    /// A fresh function: not exported.
    pub fn new(value: Token, args: Vec<String>) -> (r: FunctionData)
        ensures
            r.value@ == value@,
            strings_view(r.arguments@) == strings_view(args@),
            r.public == false,
    {
        FunctionData { value, public: false, arguments: args }
    }

    /// A copy of the stored body.
    pub fn get(&self) -> (r: Token)
        ensures
            r@ == self.value@,
    {
        crate::parser::copy_token(&self.value)
    }
}

/// A named function in the store.
#[derive(Debug)]
pub struct FunctionEntry {
    pub key: String,
    pub data: FunctionData,
}

impl View for FunctionEntry {
    type V = FunV;

    open spec fn view(&self) -> FunV {
        FunV {
            key: self.key@,
            params: strings_view(self.data.arguments@),
            body: self.data.value@,
            public: self.data.public,
        }
    }
}

/// A registered native library: its key and the path it was registered
/// with. Loading and calling native code is the embedder's concern; the
/// machine itself only keeps the registry.
#[derive(Debug)]
pub struct DynamicLibraryData {
    pub key: String,
    pub path: String,
    pub public: bool,
}

impl View for DynamicLibraryData {
    type V = LibV;

    open spec fn view(&self) -> LibV {
        LibV { key: self.key@, path: self.path@, public: self.public }
    }
}

/// A file of the machine's virtual file store.
#[derive(Debug)]
pub struct FileEntry {
    pub name: String,
    pub contents: String,
}

/// A module source preloaded for `import`.
#[derive(Debug)]
pub struct ModuleEntry {
    pub path: String,
    pub source: String,
}

/// The views of the elements of the respective stores.
pub open spec fn vars_view(s: Seq<VariableData>) -> Seq<VarV> {
    Seq::new(s.len(), |i: int| s[i]@)
}

pub open spec fn funcs_view(s: Seq<FunctionEntry>) -> Seq<FunV> {
    Seq::new(s.len(), |i: int| s[i]@)
}

pub open spec fn libs_view(s: Seq<DynamicLibraryData>) -> Seq<LibV> {
    Seq::new(s.len(), |i: int| s[i]@)
}

pub open spec fn files_view(s: Seq<FileEntry>) -> Seq<(Seq<char>, Seq<char>)> {
    Seq::new(s.len(), |i: int| (s[i].name@, s[i].contents@))
}

pub open spec fn modules_view(s: Seq<ModuleEntry>) -> Seq<(Seq<char>, Seq<char>)> {
    Seq::new(s.len(), |i: int| (s[i].path@, s[i].source@))
}

/// The machine: the program, the environment stores, and the observable
/// traces.
pub struct Machine {
    pub instructions: Vec<Token>,
    pub variables: Vec<VariableData>,
    pub functions: Vec<FunctionEntry>,
    pub dynamic_libs: Vec<DynamicLibraryData>,
    pub files: Vec<FileEntry>,
    pub modules: Vec<ModuleEntry>,
    pub inputs: Vec<String>,
    pub output: Vec<String>,
    pub errors: Vec<ErrorKind>,
    pub halted: bool,
}

impl View for Machine {
    type V = MachineV;

    open spec fn view(&self) -> MachineV {
        MachineV {
            instructions: tokens_view(self.instructions@),
            vars: vars_view(self.variables@),
            funcs: funcs_view(self.functions@),
            libs: libs_view(self.dynamic_libs@),
            files: files_view(self.files@),
            modules: modules_view(self.modules@),
            inputs: strings_view(self.inputs@),
            output: strings_view(self.output@),
            errors: self.errors@,
            halted: self.halted,
        }
    }
}

/// The state a fresh machine starts in: the given program, empty stores.
pub open spec fn initial_machine(instructions: Seq<TokenV>) -> MachineV {
    MachineV {
        instructions,
        vars: Seq::empty(),
        funcs: Seq::empty(),
        libs: Seq::empty(),
        files: Seq::empty(),
        modules: Seq::empty(),
        inputs: Seq::empty(),
        output: Seq::empty(),
        errors: Seq::empty(),
        halted: false,
    }
}

/// The nil token.
pub fn nil_token() -> (r: Token)
    ensures
        r@ == nil_tok(),
{
    Token::String(String::from_str("nil"))
}

/// The empty-text token.
pub fn empty_token() -> (r: Token)
    ensures
        r@ == empty_tok(),
{
    let s = String::new();
    proof {
        assert(s@ =~= Seq::<char>::empty());
    }
    Token::String(s)
}

/// The `true` or `false` token.
pub fn bool_token(b: bool) -> (r: Token)
    ensures
        r@ == TokenV::Text(bool_seq(b)),
{
    if b {
        Token::String(String::from_str("true"))
    } else {
        Token::String(String::from_str("false"))
    }
}

/// Whether the text is one of the closed set of false texts.
pub fn is_false(s: &String) -> (r: bool)
    ensures
        r == is_falsy(s@),
{
    proof {
        reveal_strlit("");
        assert(""@ =~= Seq::<char>::empty());
    }
    string_eq_str(s, "false") || string_eq_str(s, "0") || string_eq_str(s, "nil") || string_eq_str(
        s,
        "",
    ) || string_eq_str(s, "0.0")
}

pub proof fn lemma_find_var_at(s: Seq<VarV>, key: Seq<char>, i: int)
    requires
        0 <= i < s.len(),
        s[i].key == key,
        forall|j: int| 0 <= j < i ==> s[j].key != key,
    ensures
        find_var(s, key) == i,
    decreases i,
{
    if i > 0 {
        let t = s.drop_first();
        assert forall|j: int| 0 <= j < i - 1 implies t[j].key != key by {
            assert(t[j] == s[j + 1]);
        }
        lemma_find_var_at(t, key, i - 1);
    }
}

pub proof fn lemma_find_var_none(s: Seq<VarV>, key: Seq<char>)
    requires
        forall|j: int| 0 <= j < s.len() ==> s[j].key != key,
    ensures
        find_var(s, key) == -1,
    decreases s.len(),
{
    if s.len() > 0 {
        lemma_find_var_none(s.drop_first(), key);
    }
}

proof fn lemma_find_fun_at(s: Seq<FunV>, key: Seq<char>, i: int)
    requires
        0 <= i < s.len(),
        s[i].key == key,
        forall|j: int| 0 <= j < i ==> s[j].key != key,
    ensures
        find_fun(s, key) == i,
    decreases i,
{
    if i > 0 {
        let t = s.drop_first();
        assert forall|j: int| 0 <= j < i - 1 implies t[j].key != key by {
            assert(t[j] == s[j + 1]);
        }
        lemma_find_fun_at(t, key, i - 1);
    }
}

proof fn lemma_find_fun_none(s: Seq<FunV>, key: Seq<char>)
    requires
        forall|j: int| 0 <= j < s.len() ==> s[j].key != key,
    ensures
        find_fun(s, key) == -1,
    decreases s.len(),
{
    if s.len() > 0 {
        lemma_find_fun_none(s.drop_first(), key);
    }
}

proof fn lemma_find_lib_at(s: Seq<LibV>, key: Seq<char>, i: int)
    requires
        0 <= i < s.len(),
        s[i].key == key,
        forall|j: int| 0 <= j < i ==> s[j].key != key,
    ensures
        find_lib(s, key) == i,
    decreases i,
{
    if i > 0 {
        let t = s.drop_first();
        assert forall|j: int| 0 <= j < i - 1 implies t[j].key != key by {
            assert(t[j] == s[j + 1]);
        }
        lemma_find_lib_at(t, key, i - 1);
    }
}

proof fn lemma_find_lib_none(s: Seq<LibV>, key: Seq<char>)
    requires
        forall|j: int| 0 <= j < s.len() ==> s[j].key != key,
    ensures
        find_lib(s, key) == -1,
    decreases s.len(),
{
    if s.len() > 0 {
        lemma_find_lib_none(s.drop_first(), key);
    }
}

proof fn lemma_find_pair_at(s: Seq<(Seq<char>, Seq<char>)>, key: Seq<char>, i: int)
    requires
        0 <= i < s.len(),
        s[i].0 == key,
        forall|j: int| 0 <= j < i ==> s[j].0 != key,
    ensures
        find_pair(s, key) == i,
    decreases i,
{
    if i > 0 {
        let t = s.drop_first();
        assert forall|j: int| 0 <= j < i - 1 implies t[j].0 != key by {
            assert(t[j] == s[j + 1]);
        }
        lemma_find_pair_at(t, key, i - 1);
    }
}

proof fn lemma_find_pair_none(s: Seq<(Seq<char>, Seq<char>)>, key: Seq<char>)
    requires
        forall|j: int| 0 <= j < s.len() ==> s[j].0 != key,
    ensures
        find_pair(s, key) == -1,
    decreases s.len(),
{
    if s.len() > 0 {
        lemma_find_pair_none(s.drop_first(), key);
    }
}

proof fn lemma_drop_var_snoc(s: Seq<VarV>, x: VarV, key: Seq<char>)
    ensures
        x.key != key ==> drop_var(s.push(x), key) == drop_var(s, key).push(x),
        x.key == key ==> drop_var(s.push(x), key) == drop_var(s, key),
{
    reveal_with_fuel(Seq::filter, 2);
    assert(s.push(x).drop_last() =~= s);
    assert(s.push(x).last() == x);
}

proof fn lemma_drop_fun_snoc(s: Seq<FunV>, x: FunV, key: Seq<char>)
    ensures
        x.key != key ==> drop_fun(s.push(x), key) == drop_fun(s, key).push(x),
        x.key == key ==> drop_fun(s.push(x), key) == drop_fun(s, key),
{
    reveal_with_fuel(Seq::filter, 2);
    assert(s.push(x).drop_last() =~= s);
    assert(s.push(x).last() == x);
}

proof fn lemma_drop_lib_snoc(s: Seq<LibV>, x: LibV, key: Seq<char>)
    ensures
        x.key != key ==> drop_lib(s.push(x), key) == drop_lib(s, key).push(x),
        x.key == key ==> drop_lib(s.push(x), key) == drop_lib(s, key),
{
    reveal_with_fuel(Seq::filter, 2);
    assert(s.push(x).drop_last() =~= s);
    assert(s.push(x).last() == x);
}

proof fn lemma_drop_file_snoc(s: Seq<(Seq<char>, Seq<char>)>, x: (Seq<char>, Seq<char>), key: Seq<char>)
    ensures
        x.0 != key ==> drop_file(s.push(x), key) == drop_file(s, key).push(x),
        x.0 == key ==> drop_file(s.push(x), key) == drop_file(s, key),
{
    reveal_with_fuel(Seq::filter, 2);
    assert(s.push(x).drop_last() =~= s);
    assert(s.push(x).last() == x);
}

impl Default for Machine {
    /// A fresh machine with no program.
    fn default() -> (r: Machine)
        ensures
            r@ == initial_machine(Seq::empty()),
    {
        let r = Machine::new(Vec::new());
        proof {
            assert(tokens_view(Seq::<Token>::empty()) =~= Seq::<TokenV>::empty());
        }
        r
    }
}

impl Machine {
    /// Entries under the given variable name are dropped from the store.
    pub fn remove_variable(&mut self, name: &String)
        ensures
            final(self)@ == (MachineV { vars: drop_var(old(self)@.vars, name@), ..old(self)@ }),
    {
        let mut olds: Vec<VariableData> = Vec::new();
        core::mem::swap(&mut olds, &mut self.variables);
        let ghost oldv = vars_view(olds@);
        let mut kept: Vec<VariableData> = Vec::new();
        let ghost mut done: Seq<VarV> = Seq::empty();
        proof {
            assert(Seq::<VarV>::empty() + vars_view(olds@) =~= oldv);
            assert(vars_view(kept@) =~= drop_var(Seq::<VarV>::empty(), name@));
            reveal_with_fuel(Seq::filter, 1);
        }
        while olds.len() > 0
            invariant
                done + vars_view(olds@) == oldv,
                vars_view(kept@) == drop_var(done, name@),
            decreases olds@.len(),
        {
            let ghost prev_olds = olds@;
            let ghost prev_kept = kept@;
            let v = olds.remove(0);
            proof {
                assert(vars_view(olds@) =~= vars_view(prev_olds).drop_first());
                assert(vars_view(prev_olds)[0] == v@);
                lemma_drop_var_snoc(done, v@, name@);
                assert(done.push(v@) + vars_view(olds@) =~= done + vars_view(prev_olds));
            }
            let keep = !string_eq_str(&v.key, name.as_str());
            if keep {
                kept.push(v);
                proof {
                    assert(vars_view(kept@) =~= vars_view(prev_kept).push(
                        vars_view(prev_olds)[0],
                    ));
                }
            }
            proof {
                done = done.push(vars_view(prev_olds)[0]);
            }
        }
        proof {
            assert(vars_view(olds@) =~= Seq::<VarV>::empty());
            assert(done =~= oldv);
        }
        self.variables = kept;
    }

    /// Entries under the given function name are dropped from the store.
    pub fn remove_function(&mut self, name: &String)
        ensures
            final(self)@ == (MachineV { funcs: drop_fun(old(self)@.funcs, name@), ..old(self)@ }),
    {
        let mut olds: Vec<FunctionEntry> = Vec::new();
        core::mem::swap(&mut olds, &mut self.functions);
        let ghost oldv = funcs_view(olds@);
        let mut kept: Vec<FunctionEntry> = Vec::new();
        let ghost mut done: Seq<FunV> = Seq::empty();
        proof {
            assert(Seq::<FunV>::empty() + funcs_view(olds@) =~= oldv);
            assert(funcs_view(kept@) =~= drop_fun(Seq::<FunV>::empty(), name@));
            reveal_with_fuel(Seq::filter, 1);
        }
        while olds.len() > 0
            invariant
                done + funcs_view(olds@) == oldv,
                funcs_view(kept@) == drop_fun(done, name@),
            decreases olds@.len(),
        {
            let ghost prev_olds = olds@;
            let ghost prev_kept = kept@;
            let v = olds.remove(0);
            proof {
                assert(funcs_view(olds@) =~= funcs_view(prev_olds).drop_first());
                assert(funcs_view(prev_olds)[0] == v@);
                lemma_drop_fun_snoc(done, v@, name@);
                assert(done.push(v@) + funcs_view(olds@) =~= done + funcs_view(prev_olds));
            }
            let keep = !string_eq_str(&v.key, name.as_str());
            if keep {
                kept.push(v);
                proof {
                    assert(funcs_view(kept@) =~= funcs_view(prev_kept).push(
                        funcs_view(prev_olds)[0],
                    ));
                }
            }
            proof {
                done = done.push(funcs_view(prev_olds)[0]);
            }
        }
        proof {
            assert(funcs_view(olds@) =~= Seq::<FunV>::empty());
            assert(done =~= oldv);
        }
        self.functions = kept;
    }

    /// Entries under the given library name are dropped from the store.
    pub fn remove_library(&mut self, name: &String)
        ensures
            final(self)@ == (MachineV { libs: drop_lib(old(self)@.libs, name@), ..old(self)@ }),
    {
        let mut olds: Vec<DynamicLibraryData> = Vec::new();
        core::mem::swap(&mut olds, &mut self.dynamic_libs);
        let ghost oldv = libs_view(olds@);
        let mut kept: Vec<DynamicLibraryData> = Vec::new();
        let ghost mut done: Seq<LibV> = Seq::empty();
        proof {
            assert(Seq::<LibV>::empty() + libs_view(olds@) =~= oldv);
            assert(libs_view(kept@) =~= drop_lib(Seq::<LibV>::empty(), name@));
            reveal_with_fuel(Seq::filter, 1);
        }
        while olds.len() > 0
            invariant
                done + libs_view(olds@) == oldv,
                libs_view(kept@) == drop_lib(done, name@),
            decreases olds@.len(),
        {
            let ghost prev_olds = olds@;
            let ghost prev_kept = kept@;
            let v = olds.remove(0);
            proof {
                assert(libs_view(olds@) =~= libs_view(prev_olds).drop_first());
                assert(libs_view(prev_olds)[0] == v@);
                lemma_drop_lib_snoc(done, v@, name@);
                assert(done.push(v@) + libs_view(olds@) =~= done + libs_view(prev_olds));
            }
            let keep = !string_eq_str(&v.key, name.as_str());
            if keep {
                kept.push(v);
                proof {
                    assert(libs_view(kept@) =~= libs_view(prev_kept).push(
                        libs_view(prev_olds)[0],
                    ));
                }
            }
            proof {
                done = done.push(libs_view(prev_olds)[0]);
            }
        }
        proof {
            assert(libs_view(olds@) =~= Seq::<LibV>::empty());
            assert(done =~= oldv);
        }
        self.dynamic_libs = kept;
    }

    /// Entries under the given file name are dropped from the store.
    pub fn remove_file_entry(&mut self, name: &String)
        ensures
            final(self)@ == (MachineV { files: drop_file(old(self)@.files, name@), ..old(self)@ }),
    {
        let mut olds: Vec<FileEntry> = Vec::new();
        core::mem::swap(&mut olds, &mut self.files);
        let ghost oldv = files_view(olds@);
        let mut kept: Vec<FileEntry> = Vec::new();
        let ghost mut done: Seq<(Seq<char>, Seq<char>)> = Seq::empty();
        proof {
            assert(Seq::<(Seq<char>, Seq<char>)>::empty() + files_view(olds@) =~= oldv);
            assert(files_view(kept@) =~= drop_file(
                Seq::<(Seq<char>, Seq<char>)>::empty(),
                name@,
            ));
            reveal_with_fuel(Seq::filter, 1);
        }
        while olds.len() > 0
            invariant
                done + files_view(olds@) == oldv,
                files_view(kept@) == drop_file(done, name@),
            decreases olds@.len(),
        {
            let ghost prev_olds = olds@;
            let ghost prev_kept = kept@;
            let v = olds.remove(0);
            let ghost vv = (v.name@, v.contents@);
            proof {
                assert(files_view(olds@) =~= files_view(prev_olds).drop_first());
                assert(files_view(prev_olds)[0] == vv);
                lemma_drop_file_snoc(done, vv, name@);
                assert(done.push(vv) + files_view(olds@) =~= done + files_view(prev_olds));
            }
            let keep = !string_eq_str(&v.name, name.as_str());
            if keep {
                kept.push(v);
                proof {
                    assert(files_view(kept@) =~= files_view(prev_kept).push(
                        files_view(prev_olds)[0],
                    ));
                }
            }
            proof {
                done = done.push(files_view(prev_olds)[0]);
            }
        }
        proof {
            assert(files_view(olds@) =~= Seq::<(Seq<char>, Seq<char>)>::empty());
            assert(done =~= oldv);
        }
        self.files = kept;
    }

    /// A fresh machine over the given program.
    pub fn new(instructions: Vec<Token>) -> (r: Machine)
        ensures
            r@ == initial_machine(tokens_view(instructions@)),
    {
        let r = Machine {
            instructions,
            variables: Vec::new(),
            functions: Vec::new(),
            dynamic_libs: Vec::new(),
            files: Vec::new(),
            modules: Vec::new(),
            inputs: Vec::new(),
            output: Vec::new(),
            errors: Vec::new(),
            halted: false,
        };
        proof {
            assert(vars_view(r.variables@) =~= Seq::<VarV>::empty());
            assert(funcs_view(r.functions@) =~= Seq::<FunV>::empty());
            assert(libs_view(r.dynamic_libs@) =~= Seq::<LibV>::empty());
            assert(files_view(r.files@) =~= Seq::<(Seq<char>, Seq<char>)>::empty());
            assert(modules_view(r.modules@) =~= Seq::<(Seq<char>, Seq<char>)>::empty());
            assert(strings_view(r.inputs@) =~= Seq::<Seq<char>>::empty());
            assert(strings_view(r.output@) =~= Seq::<Seq<char>>::empty());
        }
        r
    }

    /// A line queued for the `input` command.
    pub fn feed_input(&mut self, line: String)
        ensures
            final(self)@ == (MachineV {
                inputs: old(self)@.inputs.push(line@),
                ..old(self)@
            }),
    {
        self.inputs.push(line);
        proof {
            assert(strings_view(self.inputs@) =~= strings_view(old(self).inputs@).push(line@));
        }
    }

    /// A module source made available to `import` under the given path.
    pub fn load_module(&mut self, path: String, source: String)
        ensures
            final(self)@ == (MachineV {
                modules: old(self)@.modules.push((path@, source@)),
                ..old(self)@
            }),
    {
        self.modules.push(ModuleEntry { path, source });
        proof {
            assert(modules_view(self.modules@) =~= modules_view(old(self).modules@).push(
                (self.modules@.last().path@, self.modules@.last().source@),
            ));
        }
    }

    /// A reported error: the diagnostic is recorded and execution goes on.
    pub(crate) fn note_err(&mut self, k: ErrorKind)
        ensures
            final(self)@ == report(old(self)@, k),
    {
        self.errors.push(k);
    }

    /// A fatal error: the diagnostic is recorded and the machine stops.
    pub(crate) fn fatal_err(&mut self, k: ErrorKind)
        ensures
            final(self)@ == halt(old(self)@, k),
    {
        self.errors.push(k);
        self.halted = true;
    }

    /// The index of the first variable under the name, if any.
    pub fn find_variable(&self, name: &String) -> (r: Option<usize>)
        ensures
            match r {
                Some(i) => i < self.variables@.len() && find_var(self@.vars, name@) == i,
                None => find_var(self@.vars, name@) == -1,
            },
    {
        let mut i: usize = 0;
        while i < self.variables.len()
            invariant
                i <= self.variables@.len(),
                forall|j: int| 0 <= j < i ==> vars_view(self.variables@)[j].key != name@,
            decreases self.variables@.len() - i,
        {
            if string_eq_str(&self.variables[i].key, name.as_str()) {
                proof {
                    lemma_find_var_at(self@.vars, name@, i as int);
                }
                return Some(i);
            }
            i = i + 1;
        }
        proof {
            lemma_find_var_none(self@.vars, name@);
        }
        None
    }

    /// The index of the first function under the name, if any.
    pub fn find_function(&self, name: &String) -> (r: Option<usize>)
        ensures
            match r {
                Some(i) => i < self.functions@.len() && find_fun(self@.funcs, name@) == i,
                None => find_fun(self@.funcs, name@) == -1,
            },
    {
        let mut i: usize = 0;
        while i < self.functions.len()
            invariant
                i <= self.functions@.len(),
                forall|j: int| 0 <= j < i ==> funcs_view(self.functions@)[j].key != name@,
            decreases self.functions@.len() - i,
        {
            if string_eq_str(&self.functions[i].key, name.as_str()) {
                proof {
                    lemma_find_fun_at(self@.funcs, name@, i as int);
                }
                return Some(i);
            }
            i = i + 1;
        }
        proof {
            lemma_find_fun_none(self@.funcs, name@);
        }
        None
    }

    /// The index of the first library under the name, if any.
    pub fn find_library(&self, name: &String) -> (r: Option<usize>)
        ensures
            match r {
                Some(i) => i < self.dynamic_libs@.len() && find_lib(self@.libs, name@) == i,
                None => find_lib(self@.libs, name@) == -1,
            },
    {
        let mut i: usize = 0;
        while i < self.dynamic_libs.len()
            invariant
                i <= self.dynamic_libs@.len(),
                forall|j: int| 0 <= j < i ==> libs_view(self.dynamic_libs@)[j].key != name@,
            decreases self.dynamic_libs@.len() - i,
        {
            if string_eq_str(&self.dynamic_libs[i].key, name.as_str()) {
                proof {
                    lemma_find_lib_at(self@.libs, name@, i as int);
                }
                return Some(i);
            }
            i = i + 1;
        }
        proof {
            lemma_find_lib_none(self@.libs, name@);
        }
        None
    }

    /// The index of the first stored file under the name, if any.
    pub fn find_file(&self, name: &String) -> (r: Option<usize>)
        ensures
            match r {
                Some(i) => i < self.files@.len() && find_pair(self@.files, name@) == i,
                None => find_pair(self@.files, name@) == -1,
            },
    {
        let mut i: usize = 0;
        while i < self.files.len()
            invariant
                i <= self.files@.len(),
                forall|j: int| 0 <= j < i ==> files_view(self.files@)[j].0 != name@,
            decreases self.files@.len() - i,
        {
            if string_eq_str(&self.files[i].name, name.as_str()) {
                proof {
                    lemma_find_pair_at(self@.files, name@, i as int);
                }
                return Some(i);
            }
            i = i + 1;
        }
        proof {
            lemma_find_pair_none(self@.files, name@);
        }
        None
    }

    /// The index of the first loaded module under the path, if any.
    pub fn find_module(&self, path: &String) -> (r: Option<usize>)
        ensures
            match r {
                Some(i) => i < self.modules@.len() && find_pair(self@.modules, path@) == i,
                None => find_pair(self@.modules, path@) == -1,
            },
    {
        let mut i: usize = 0;
        while i < self.modules.len()
            invariant
                i <= self.modules@.len(),
                forall|j: int| 0 <= j < i ==> modules_view(self.modules@)[j].0 != path@,
            decreases self.modules@.len() - i,
        {
            if string_eq_str(&self.modules[i].path, path.as_str()) {
                proof {
                    lemma_find_pair_at(self@.modules, path@, i as int);
                }
                return Some(i);
            }
            i = i + 1;
        }
        proof {
            lemma_find_pair_none(self@.modules, path@);
        }
        None
    }

    /// A token coerced to its text, under the given budget.
    pub fn token_to_string_fueled(&mut self, token: Token, fuel: u64) -> (r: String)
        ensures
            (final(self)@, r@) == s_tts(old(self)@, token@, fuel as nat),
        decreases fuel, 1int, 0int,
    {
        match token {
            Token::String(value) => value,
            Token::Command(_) => {
                let evaluated = self.process_fueled(token, fuel);
                match evaluated {
                    Token::String(value) => value,
                    _ => {
                        self.note_err(ErrorKind::BadObject);
                        let r = String::new();
                        proof {
                            assert(r@ =~= Seq::<char>::empty());
                        }
                        r
                    },
                }
            },
            _ => {
                self.note_err(ErrorKind::BadObject);
                let r = String::new();
                proof {
                    assert(r@ =~= Seq::<char>::empty());
                }
                r
            },
        }
    }

    /// A token coerced to its text, with a fresh budget.
    pub fn token_to_string(&mut self, token: Token) -> (r: String)
        ensures
            (final(self)@, r@) == s_tts(old(self)@, token@, DEFAULT_FUEL as nat),
    {
        self.token_to_string_fueled(token, DEFAULT_FUEL)
    }

    /// One token evaluated under the given budget: a command is dispatched
    /// by name, anything else is already a value.
    pub fn process_fueled(&mut self, token: Token, fuel: u64) -> (r: Token)
        ensures
            (final(self)@, r@) == s_eval(old(self)@, token@, fuel as nat),
        decreases fuel, 0int, 0int,
    {
        if self.halted {
            return nil_token();
        }
        match token {
            Token::Command(c) => {
                if fuel == 0 {
                    self.fatal_err(ErrorKind::OutOfFuel);
                    nil_token()
                } else {
                    proof {
                        lemma_args_view_is_pointwise(c.arguments@);
                    }
                    self.dispatch(c.name, c.arguments, fuel - 1)
                }
            },
            other => other,
        }
    }

    /// One token evaluated with a fresh budget.
    pub fn process(&mut self, token: Token) -> (r: Token)
        ensures
            (final(self)@, r@) == s_eval(old(self)@, token@, DEFAULT_FUEL as nat),
    {
        self.process_fueled(token, DEFAULT_FUEL)
    }

    /// The stored program taken out and evaluated in order, each top-level
    /// command with a fresh budget; results are discarded.
    pub fn process_whole(&mut self)
        ensures
            final(self)@ == s_whole(old(self)@),
    {
        let mut insts: Vec<Token> = Vec::new();
        core::mem::swap(&mut insts, &mut self.instructions);
        proof {
            assert(tokens_view(self.instructions@) =~= Seq::<TokenV>::empty());
        }
        let n = insts.len();
        let mut i: usize = 0;
        while i < n
            invariant
                i <= n,
                n == insts@.len(),
                s_run(
                    (MachineV { instructions: Seq::empty(), ..old(self)@ }),
                    tokens_view(insts@),
                    0,
                    DEFAULT_FUEL as nat,
                ) == s_run(self@, tokens_view(insts@), i as nat, DEFAULT_FUEL as nat),
            decreases n - i,
        {
            let t = crate::parser::copy_token(&insts[i]);
            let ghost pre = self@;
            let _ = self.process_fueled(t, DEFAULT_FUEL);
            proof {
                assert(s_run(pre, tokens_view(insts@), i as nat, DEFAULT_FUEL as nat) == s_run(
                    self@,
                    tokens_view(insts@),
                    (i + 1) as nat,
                    DEFAULT_FUEL as nat,
                ));
            }
            i = i + 1;
        }
    }

    /// A command dispatched by its name: a builtin, or an implicit call of
    /// a user function of that name; otherwise a fatal unknown-command
    /// error.
    fn dispatch(&mut self, name: String, args: Vec<Token>, fuel: u64) -> (r: Token)
        ensures
            (final(self)@, r@) == s_dispatch(old(self)@, name@, tokens_view(args@), fuel as nat),
        decreases fuel, 7int, 0int,
    {
        if string_eq_str(&name, "print") {
            self.print(args, fuel)
        } else if string_eq_str(&name, "let") {
            self.let_(args, fuel)
        } else if string_eq_str(&name, "get") {
            self.get(args, fuel)
        } else if string_eq_str(&name, "clone") {
            self.clone_cmd(args, fuel)
        } else if string_eq_str(&name, "upgrade") {
            self.upgrade(args, fuel)
        } else if string_eq_str(&name, "pubv") {
            self.pubv(args, fuel)
        } else if string_eq_str(&name, "do") {
            self.do_(args, fuel)
        } else if string_eq_str(&name, "function") {
            self.function(args, fuel)
        } else if string_eq_str(&name, "call") {
            self.call(args, fuel)
        } else if string_eq_str(&name, "pubf") {
            self.pubf(args, fuel)
        } else if string_eq_str(&name, "dylib") {
            self.dylib(args, fuel)
        } else if string_eq_str(&name, "native") {
            self.native(args, fuel)
        } else if string_eq_str(&name, "pubd") {
            self.pubd(args, fuel)
        } else if string_eq_str(&name, "import") {
            self.import(args, fuel)
        } else if string_eq_str(&name, "if") {
            self.if_(args, fuel)
        } else if string_eq_str(&name, "equals") {
            self.equals(args, fuel)
        } else if string_eq_str(&name, "not") {
            self.not(args, fuel)
        } else if string_eq_str(&name, "bigger") {
            self.bigger(args, fuel)
        } else if string_eq_str(&name, "smaller") {
            self.smaller(args, fuel)
        } else if string_eq_str(&name, "for") {
            self.for_(args, fuel)
        } else if string_eq_str(&name, "while") {
            self.while_(args, fuel)
        } else if string_eq_str(&name, "float") {
            self.float(args, fuel)
        } else if string_eq_str(&name, "int") {
            self.int_(args, fuel)
        } else if string_eq_str(&name, "bool") {
            self.bool(args, fuel)
        } else if string_eq_str(&name, "+") {
            self.add(args, fuel)
        } else if string_eq_str(&name, "-") {
            self.sub(args, fuel)
        } else if string_eq_str(&name, "*") {
            self.mul(args, fuel)
        } else if string_eq_str(&name, "/") {
            self.div(args, fuel)
        } else if string_eq_str(&name, "%") {
            self.mod_(args, fuel)
        } else if string_eq_str(&name, "input") {
            self.input(args, fuel)
        } else if string_eq_str(&name, "sleep") {
            self.sleep(args, fuel)
        } else if string_eq_str(&name, "file.read") {
            self.readf(args, fuel)
        } else if string_eq_str(&name, "file.write") {
            self.writef(args, fuel)
        } else if string_eq_str(&name, "file.make") {
            self.makef(args, fuel)
        } else if string_eq_str(&name, "file.exists") {
            self.existsf(args, fuel)
        } else if string_eq_str(&name, "file.remove") {
            self.removef(args, fuel)
        } else if name.as_str().unicode_len() == 0 {
            proof {
                assert(name@ =~= Seq::<char>::empty());
                assert(name@.len() == 0);
            }
            self.concat(args, fuel)
        } else {
            match self.find_function(&name) {
                Some(_) => {
                    let ghost namev = name@;
                    let ghost argsv = args@;
                    let mut args2 = args;
                    args2.insert(0, Token::String(name));
                    proof {
                        assert(tokens_view(args2@) =~= seq![TokenV::Text(namev)] + tokens_view(
                            argsv,
                        ));
                    }
                    self.call(args2, fuel)
                },
                None => {
                    self.fatal_err(ErrorKind::UnknownCommand);
                    empty_token()
                },
            }
        }
    }
}

} // verus!
