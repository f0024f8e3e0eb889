//! The mathematical semantics of the machine.
//!
//! Every command of the language is given a specification function from
//! machine state and argument tokens to the next state and the result
//! token. Recursion through nested commands and user functions is bounded
//! by an explicit fuel; running out of fuel is a fatal error. The
//! executable machine is proved to compute exactly these functions.

use crate::numdec::spec_dec_add;
use crate::numdec::spec_dec_div;
use crate::numdec::spec_dec_lt;
use crate::numdec::spec_dec_mod;
use crate::numdec::spec_dec_mul;
use crate::numdec::spec_dec_sub;
use crate::numdec::spec_parse_dec;
use crate::numdec::spec_parse_i32;
use crate::numdec::spec_render_dec;
use crate::numdec::pow10;
use crate::numdec::Dec;
use crate::parser::initial_parser;
use crate::parser::spec_parse;
use crate::parser::TokenV;
use vstd::prelude::*;

verus! {

/// What a reported or fatal error is about.
#[derive(Debug, Clone, Copy, PartialEq, Eq, Structural)]
pub enum ErrorKind {
    /// A builtin was given the wrong number of arguments (fatal).
    ArgCount,
    /// A value was required but the token was not a string or a command.
    BadObject,
    /// A variable was looked up and was not in the store.
    MissingVariable,
    /// A function was called and was not in the store.
    MissingFunction,
    /// A native library was named and was not in the store.
    MissingLibrary,
    /// An imported path had no loaded module source (fatal).
    MissingModule,
    /// A command name matched no builtin and no function (fatal).
    UnknownCommand,
    /// A function was called with the wrong number of arguments.
    ArityMismatch,
    /// An arithmetic command was given a non-numeric operand.
    NotANumber,
    /// A division was given a zero divisor.
    DivideByZero,
    /// A native call was made, but no native bridge is present.
    NativeUnavailable,
    /// An imported module failed to parse (fatal).
    Syntax,
    /// Nesting or iteration exhausted the evaluation budget (fatal).
    OutOfFuel,
}

/// The mathematical state of a variable.
pub struct VarV {
    pub key: Seq<char>,
    pub value: Seq<char>,
    pub ref_count: nat,
    pub public: bool,
}

/// The mathematical state of a user-defined function.
pub struct FunV {
    pub key: Seq<char>,
    pub params: Seq<Seq<char>>,
    pub body: TokenV,
    pub public: bool,
}

/// The mathematical state of a registered native library.
pub struct LibV {
    pub key: Seq<char>,
    pub path: Seq<char>,
    pub public: bool,
}

/// The mathematical state of the whole machine.
pub struct MachineV {
    pub instructions: Seq<TokenV>,
    pub vars: Seq<VarV>,
    pub funcs: Seq<FunV>,
    pub libs: Seq<LibV>,
    pub files: Seq<(Seq<char>, Seq<char>)>,
    pub modules: Seq<(Seq<char>, Seq<char>)>,
    pub inputs: Seq<Seq<char>>,
    pub output: Seq<Seq<char>>,
    pub errors: Seq<ErrorKind>,
    pub halted: bool,
}

/// The evaluation budget a fresh top-level command starts with.
pub const DEFAULT_FUEL: u64 = 0x1000000000000;

/// The text of the nil value.
pub open spec fn nil_seq() -> Seq<char> {
    "nil"@
}

pub open spec fn nil_tok() -> TokenV {
    TokenV::Text(nil_seq())
}

pub open spec fn empty_tok() -> TokenV {
    TokenV::Text(Seq::empty())
}

pub open spec fn bool_seq(b: bool) -> Seq<char> {
    if b {
        "true"@
    } else {
        "false"@
    }
}

/// The closed set of false texts.
pub open spec fn is_falsy(s: Seq<char>) -> bool {
    s == "false"@ || s == "0"@ || s == "nil"@ || s =~= Seq::<char>::empty() || s == "0.0"@
}

/// A reported error: the diagnostic is recorded and execution goes on.
pub open spec fn report(m: MachineV, k: ErrorKind) -> MachineV {
    MachineV { errors: m.errors.push(k), ..m }
}

/// A fatal error: the diagnostic is recorded and the machine stops.
pub open spec fn halt(m: MachineV, k: ErrorKind) -> MachineV {
    MachineV { errors: m.errors.push(k), halted: true, ..m }
}

/// The index of the first variable with the given key, or -1.
pub open spec fn find_var(vars: Seq<VarV>, key: Seq<char>) -> int
    decreases vars.len(),
{
    if vars.len() == 0 {
        -1
    } else if vars[0].key == key {
        0
    } else {
        let r = find_var(vars.drop_first(), key);
        if r < 0 {
            -1
        } else {
            r + 1
        }
    }
}

/// The index of the first function with the given key, or -1.
pub open spec fn find_fun(funcs: Seq<FunV>, key: Seq<char>) -> int
    decreases funcs.len(),
{
    if funcs.len() == 0 {
        -1
    } else if funcs[0].key == key {
        0
    } else {
        let r = find_fun(funcs.drop_first(), key);
        if r < 0 {
            -1
        } else {
            r + 1
        }
    }
}

/// The index of the first library with the given key, or -1.
pub open spec fn find_lib(libs: Seq<LibV>, key: Seq<char>) -> int
    decreases libs.len(),
{
    if libs.len() == 0 {
        -1
    } else if libs[0].key == key {
        0
    } else {
        let r = find_lib(libs.drop_first(), key);
        if r < 0 {
            -1
        } else {
            r + 1
        }
    }
}

/// The index of the first file with the given name, or -1.
pub open spec fn find_pair(pairs: Seq<(Seq<char>, Seq<char>)>, key: Seq<char>) -> int
    decreases pairs.len(),
{
    if pairs.len() == 0 {
        -1
    } else if pairs[0].0 == key {
        0
    } else {
        let r = find_pair(pairs.drop_first(), key);
        if r < 0 {
            -1
        } else {
            r + 1
        }
    }
}

/// A counter bumped by one, stopping at the machine limit.
pub open spec fn bump_count(n: nat) -> nat {
    if n < usize::MAX as nat {
        n + 1
    } else {
        n
    }
}

/// The texts joined with a single space between neighbours.
pub open spec fn spec_join(parts: Seq<Seq<char>>) -> Seq<char>
    decreases parts.len(),
{
    if parts.len() == 0 {
        Seq::empty()
    } else if parts.len() == 1 {
        parts[0]
    } else {
        spec_join(parts.drop_last()) + seq![' '] + parts.last()
    }
}

/// The texts of the plain string tokens of a sequence, in order.
pub open spec fn text_items(args: Seq<TokenV>) -> Seq<Seq<char>>
    decreases args.len(),
{
    if args.len() == 0 {
        Seq::empty()
    } else {
        let rest = text_items(args.drop_last());
        match args.last() {
            TokenV::Text(s) => rest.push(s),
            _ => rest,
        }
    }
}

/// The parameter names of a function declaration: the plain strings of an
/// anonymous concatenation command; anything else declares none.
pub open spec fn param_names(arglist: TokenV) -> Seq<Seq<char>> {
    match arglist {
        TokenV::Command { name, arguments } => {
            if name.len() == 0 {
                text_items(arguments)
            } else {
                Seq::empty()
            }
        },
        _ => Seq::empty(),
    }
}

/// The variables that do not carry the given key.
pub open spec fn drop_var(vars: Seq<VarV>, key: Seq<char>) -> Seq<VarV> {
    vars.filter(|v: VarV| v.key != key)
}

/// The functions that do not carry the given key.
pub open spec fn drop_fun(funcs: Seq<FunV>, key: Seq<char>) -> Seq<FunV> {
    funcs.filter(|f: FunV| f.key != key)
}

/// The libraries that do not carry the given key.
pub open spec fn drop_lib(libs: Seq<LibV>, key: Seq<char>) -> Seq<LibV> {
    libs.filter(|l: LibV| l.key != key)
}

/// The files that do not carry the given name.
pub open spec fn drop_file(files: Seq<(Seq<char>, Seq<char>)>, key: Seq<char>) -> Seq<
    (Seq<char>, Seq<char>),
> {
    files.filter(|p: (Seq<char>, Seq<char>)| p.0 != key)
}

/// The text form of a possibly negative machine integer.
pub open spec fn spec_render_int(neg: bool, mag: nat) -> Seq<char> {
    spec_render_dec(Dec { neg, mant: mag as u128, scale: 0 })
}

/// A decimal truncated toward zero and saturated to the `i32` range,
/// as its text.
pub open spec fn spec_int_cast(d: Dec) -> Seq<char> {
    let t = d.mant as nat / pow10(d.scale as nat);
    if d.neg {
        if t >= 0x80000000 {
            spec_render_int(true, 0x80000000)
        } else {
            spec_render_int(true, t)
        }
    } else {
        if t >= 0x7fffffff {
            spec_render_int(false, 0x7fffffff)
        } else {
            spec_render_int(false, t)
        }
    }
}

/// One token evaluated: a command is dispatched, anything else is already a
/// value and is returned unchanged.
pub open spec fn s_eval(m: MachineV, t: TokenV, fuel: nat) -> (MachineV, TokenV)
    decreases fuel, 0int, 0int,
{
    if m.halted {
        (m, nil_tok())
    } else {
        match t {
            TokenV::Command { name, arguments } => {
                if fuel == 0 {
                    (halt(m, ErrorKind::OutOfFuel), nil_tok())
                } else {
                    s_dispatch(m, name, arguments, (fuel - 1) as nat)
                }
            },
            other => (m, other),
        }
    }
}

/// A command dispatched by name to its builtin, or as an implicit function
/// call; a name that is neither builtin nor function is a fatal error.
pub open spec fn s_dispatch(m: MachineV, name: Seq<char>, args: Seq<TokenV>, fuel: nat) -> (
    MachineV,
    TokenV,
)
    decreases fuel, 7int, 0int,
{
    if name == "print"@ {
        s_print(m, args, fuel)
    } else if name == "let"@ {
        s_let(m, args, fuel)
    } else if name == "get"@ {
        s_get(m, args, fuel)
    } else if name == "clone"@ {
        s_clone(m, args, fuel)
    } else if name == "upgrade"@ {
        s_upgrade(m, args, fuel)
    } else if name == "pubv"@ {
        s_pubv(m, args, fuel)
    } else if name == "do"@ {
        s_do(m, args, fuel)
    } else if name == "function"@ {
        s_function(m, args, fuel)
    } else if name == "call"@ {
        s_call(m, args, fuel)
    } else if name == "pubf"@ {
        s_pubf(m, args, fuel)
    } else if name == "dylib"@ {
        s_dylib(m, args, fuel)
    } else if name == "native"@ {
        s_native(m, args, fuel)
    } else if name == "pubd"@ {
        s_pubd(m, args, fuel)
    } else if name == "import"@ {
        s_import(m, args, fuel)
    } else if name == "if"@ {
        s_if(m, args, fuel)
    } else if name == "equals"@ {
        s_equals(m, args, fuel)
    } else if name == "not"@ {
        s_not(m, args, fuel)
    } else if name == "bigger"@ {
        s_bigger(m, args, fuel)
    } else if name == "smaller"@ {
        s_smaller(m, args, fuel)
    } else if name == "for"@ {
        s_for(m, args, fuel)
    } else if name == "while"@ {
        s_while_cmd(m, args, fuel)
    } else if name == "float"@ {
        s_float(m, args, fuel)
    } else if name == "int"@ {
        s_int(m, args, fuel)
    } else if name == "bool"@ {
        s_bool(m, args, fuel)
    } else if name == "+"@ {
        s_add(m, args, fuel)
    } else if name == "-"@ {
        s_sub(m, args, fuel)
    } else if name == "*"@ {
        s_mul(m, args, fuel)
    } else if name == "/"@ {
        s_div(m, args, fuel)
    } else if name == "%"@ {
        s_mod(m, args, fuel)
    } else if name == "input"@ {
        s_input(m, args, fuel)
    } else if name == "sleep"@ {
        s_sleep(m, args, fuel)
    } else if name == "file.read"@ {
        s_readf(m, args, fuel)
    } else if name == "file.write"@ {
        s_writef(m, args, fuel)
    } else if name == "file.make"@ {
        s_makef(m, args, fuel)
    } else if name == "file.exists"@ {
        s_existsf(m, args, fuel)
    } else if name == "file.remove"@ {
        s_removef(m, args, fuel)
    } else if name.len() == 0 {
        s_concat(m, args, fuel)
    } else if find_fun(m.funcs, name) >= 0 {
        s_call(m, seq![TokenV::Text(name)] + args, fuel)
    } else {
        (halt(m, ErrorKind::UnknownCommand), empty_tok())
    }
}

/// A token coerced to its text: a string directly, a command through its
/// evaluation; anything else is reported and yields the empty text.
pub open spec fn s_tts(m: MachineV, t: TokenV, fuel: nat) -> (MachineV, Seq<char>)
    decreases fuel, 1int, 0int,
{
    match t {
        TokenV::Text(s) => (m, s),
        TokenV::Command { .. } => {
            let (m1, r) = s_eval(m, t, fuel);
            match r {
                TokenV::Text(s) => (m1, s),
                _ => (report(m1, ErrorKind::BadObject), Seq::empty()),
            }
        },
        _ => (report(m, ErrorKind::BadObject), Seq::empty()),
    }
}

/// The texts of the arguments gathered left to right: strings directly,
/// commands through their evaluation, anything else skipped.
pub open spec fn s_gather(m: MachineV, args: Seq<TokenV>, i: nat, parts: Seq<Seq<char>>, fuel: nat) -> (
    MachineV,
    Seq<Seq<char>>,
)
    decreases fuel, 2int, args.len() - i,
{
    if i >= args.len() {
        (m, parts)
    } else {
        match args[i as int] {
            TokenV::Text(s) => s_gather(m, args, i + 1, parts.push(s), fuel),
            TokenV::Command { .. } => {
                let (m1, r) = s_eval(m, args[i as int], fuel);
                match r {
                    TokenV::Text(s) => s_gather(m1, args, i + 1, parts.push(s), fuel),
                    _ => s_gather(m1, args, i + 1, parts, fuel),
                }
            },
            _ => s_gather(m, args, i + 1, parts, fuel),
        }
    }
}

/// Concatenation (the empty command name): the argument texts joined with
/// single spaces.
pub open spec fn s_concat(m: MachineV, args: Seq<TokenV>, fuel: nat) -> (MachineV, TokenV)
    decreases fuel, 3int, 0int,
{
    let (m1, parts) = s_gather(m, args, 0, Seq::empty(), fuel);
    (m1, TokenV::Text(spec_join(parts)))
}

/// `print`: the argument texts joined with spaces, appended to the output
/// trace, and returned.
pub open spec fn s_print(m: MachineV, args: Seq<TokenV>, fuel: nat) -> (MachineV, TokenV)
    decreases fuel, 3int, 0int,
{
    let (m1, parts) = s_gather(m, args, 0, Seq::empty(), fuel);
    let line = spec_join(parts);
    (MachineV { output: m1.output.push(line), ..m1 }, TokenV::Text(line))
}

/// `let`: the named variable is created or replaced with budget one.
pub open spec fn s_let(m: MachineV, args: Seq<TokenV>, fuel: nat) -> (MachineV, TokenV)
    decreases fuel, 2int, 0int,
{
    if args.len() != 2 {
        (halt(m, ErrorKind::ArgCount), nil_tok())
    } else {
        let (m1, name) = s_tts(m, args[0], fuel);
        let (m2, value) = s_tts(m1, args[1], fuel);
        let vars = drop_var(m2.vars, name).push(
            VarV { key: name, value, ref_count: 1, public: false },
        );
        (MachineV { vars, ..m2 }, nil_tok())
    }
}

/// `get`: one read of the variable is consumed; the last read removes the
/// entry. A missing name is reported and yields the empty text.
pub open spec fn s_get(m: MachineV, args: Seq<TokenV>, fuel: nat) -> (MachineV, TokenV)
    decreases fuel, 2int, 0int,
{
    if args.len() != 1 {
        (halt(m, ErrorKind::ArgCount), nil_tok())
    } else {
        let (m1, name) = s_tts(m, args[0], fuel);
        let i = find_var(m1.vars, name);
        if i < 0 {
            (report(m1, ErrorKind::MissingVariable), empty_tok())
        } else {
            let v = m1.vars[i];
            if v.ref_count == 0 {
                (m1, nil_tok())
            } else if v.ref_count == 1 {
                (MachineV { vars: m1.vars.remove(i), ..m1 }, TokenV::Text(v.value))
            } else {
                let updated = VarV { ref_count: (v.ref_count - 1) as nat, ..v };
                (MachineV { vars: m1.vars.update(i, updated), ..m1 }, TokenV::Text(v.value))
            }
        }
    }
}

/// `clone`: the value is read without touching the budget or the entry.
pub open spec fn s_clone(m: MachineV, args: Seq<TokenV>, fuel: nat) -> (MachineV, TokenV)
    decreases fuel, 2int, 0int,
{
    if args.len() != 1 {
        (halt(m, ErrorKind::ArgCount), nil_tok())
    } else {
        let (m1, name) = s_tts(m, args[0], fuel);
        let i = find_var(m1.vars, name);
        if i < 0 {
            (report(m1, ErrorKind::MissingVariable), empty_tok())
        } else {
            (m1, TokenV::Text(m1.vars[i].value))
        }
    }
}

/// `upgrade`: one more read of the variable is allowed; the name is
/// returned.
pub open spec fn s_upgrade(m: MachineV, args: Seq<TokenV>, fuel: nat) -> (MachineV, TokenV)
    decreases fuel, 2int, 0int,
{
    if args.len() != 1 {
        (halt(m, ErrorKind::ArgCount), nil_tok())
    } else {
        let (m1, name) = s_tts(m, args[0], fuel);
        let i = find_var(m1.vars, name);
        if i < 0 {
            (report(m1, ErrorKind::MissingVariable), empty_tok())
        } else {
            let v = m1.vars[i];
            let updated = VarV { ref_count: bump_count(v.ref_count), ..v };
            (MachineV { vars: m1.vars.update(i, updated), ..m1 }, TokenV::Text(name))
        }
    }
}

/// `pubv`: the export flag of the variable is toggled.
pub open spec fn s_pubv(m: MachineV, args: Seq<TokenV>, fuel: nat) -> (MachineV, TokenV)
    decreases fuel, 2int, 0int,
{
    if args.len() != 1 {
        (halt(m, ErrorKind::ArgCount), nil_tok())
    } else {
        let (m1, name) = s_tts(m, args[0], fuel);
        let i = find_var(m1.vars, name);
        if i < 0 {
            (report(m1, ErrorKind::MissingVariable), empty_tok())
        } else {
            let v = m1.vars[i];
            let updated = VarV { public: !v.public, ..v };
            (MachineV { vars: m1.vars.update(i, updated), ..m1 }, nil_tok())
        }
    }
}

/// The arguments of `do` evaluated in order, keeping the last result.
pub open spec fn s_do_loop(m: MachineV, args: Seq<TokenV>, i: nat, last: TokenV, fuel: nat) -> (
    MachineV,
    TokenV,
)
    decreases fuel, 2int, args.len() - i,
{
    if i >= args.len() {
        (m, last)
    } else {
        let (m1, r) = s_eval(m, args[i as int], fuel);
        s_do_loop(m1, args, i + 1, r, fuel)
    }
}

/// `do`: each argument evaluated in order; the last result is returned.
pub open spec fn s_do(m: MachineV, args: Seq<TokenV>, fuel: nat) -> (MachineV, TokenV)
    decreases fuel, 3int, 0int,
{
    if args.len() == 0 {
        (halt(m, ErrorKind::ArgCount), nil_tok())
    } else {
        s_do_loop(m, args, 0, nil_tok(), fuel)
    }
}

/// `function`: the named function is defined or replaced; its parameters
/// are the plain strings of the anonymous command in second position, and
/// its body is stored unevaluated.
pub open spec fn s_function(m: MachineV, args: Seq<TokenV>, fuel: nat) -> (MachineV, TokenV)
    decreases fuel, 2int, 0int,
{
    if args.len() != 3 {
        (halt(m, ErrorKind::ArgCount), nil_tok())
    } else {
        let (m1, name) = s_tts(m, args[0], fuel);
        let params = param_names(args[1]);
        let funcs = drop_fun(m1.funcs, name).push(
            FunV { key: name, params, body: args[2], public: false },
        );
        (MachineV { funcs, ..m1 }, nil_tok())
    }
}

/// `pubf`: the export flag of the function is toggled.
pub open spec fn s_pubf(m: MachineV, args: Seq<TokenV>, fuel: nat) -> (MachineV, TokenV)
    decreases fuel, 2int, 0int,
{
    if args.len() != 1 {
        (halt(m, ErrorKind::ArgCount), nil_tok())
    } else {
        let (m1, name) = s_tts(m, args[0], fuel);
        let i = find_fun(m1.funcs, name);
        if i < 0 {
            (report(m1, ErrorKind::MissingFunction), nil_tok())
        } else {
            let f = m1.funcs[i];
            let updated = FunV { public: !f.public, ..f };
            (MachineV { funcs: m1.funcs.update(i, updated), ..m1 }, nil_tok())
        }
    }
}

/// The actual arguments bound to the formal names, in order, each as a
/// fresh variable of budget one.
pub open spec fn s_bind_loop(
    m: MachineV,
    params: Seq<Seq<char>>,
    args: Seq<TokenV>,
    k: nat,
    fuel: nat,
) -> MachineV
    decreases fuel, 3int, params.len() - k,
{
    if k >= params.len() {
        m
    } else {
        let (m1, r) = s_let(m, seq![TokenV::Text(params[k as int]), args[k as int]], fuel);
        s_bind_loop(m1, params, args, k + 1, fuel)
    }
}

/// `call`: the named function's formals are bound to the remaining
/// arguments and its body is evaluated. A missing function or an argument
/// count mismatch is reported and yields the empty text.
pub open spec fn s_call(m: MachineV, args: Seq<TokenV>, fuel: nat) -> (MachineV, TokenV)
    decreases fuel, 4int, 0int,
{
    if args.len() == 0 {
        (halt(m, ErrorKind::ArgCount), nil_tok())
    } else {
        let (m1, name) = s_tts(m, args[0], fuel);
        let i = find_fun(m1.funcs, name);
        if i < 0 {
            (report(m1, ErrorKind::MissingFunction), empty_tok())
        } else {
            let f = m1.funcs[i];
            if args.len() - 1 != f.params.len() {
                (report(m1, ErrorKind::ArityMismatch), empty_tok())
            } else {
                let m2 = s_bind_loop(m1, f.params, args.drop_first(), 0, fuel);
                s_eval(m2, f.body, fuel)
            }
        }
    }
}

/// `dylib`: the named library is registered or replaced by its path.
pub open spec fn s_dylib(m: MachineV, args: Seq<TokenV>, fuel: nat) -> (MachineV, TokenV)
    decreases fuel, 2int, 0int,
{
    if args.len() != 2 {
        (halt(m, ErrorKind::ArgCount), nil_tok())
    } else {
        let (m1, name) = s_tts(m, args[0], fuel);
        let (m2, path) = s_tts(m1, args[1], fuel);
        let libs = drop_lib(m2.libs, name).push(LibV { key: name, path, public: false });
        (MachineV { libs, ..m2 }, nil_tok())
    }
}

/// `native`: the library is looked up; with no native bridge present the
/// call itself is reported as unavailable and yields the empty text.
pub open spec fn s_native(m: MachineV, args: Seq<TokenV>, fuel: nat) -> (MachineV, TokenV)
    decreases fuel, 2int, 0int,
{
    if args.len() != 3 {
        (halt(m, ErrorKind::ArgCount), nil_tok())
    } else {
        let (m1, name) = s_tts(m, args[0], fuel);
        let (m2, func) = s_tts(m1, args[1], fuel);
        let (m3, arg) = s_tts(m2, args[2], fuel);
        let i = find_lib(m3.libs, name);
        if i < 0 {
            (report(m3, ErrorKind::MissingLibrary), empty_tok())
        } else {
            (report(m3, ErrorKind::NativeUnavailable), empty_tok())
        }
    }
}

/// `pubd`: the export flag of the library is toggled.
pub open spec fn s_pubd(m: MachineV, args: Seq<TokenV>, fuel: nat) -> (MachineV, TokenV)
    decreases fuel, 2int, 0int,
{
    if args.len() != 1 {
        (halt(m, ErrorKind::ArgCount), nil_tok())
    } else {
        let (m1, name) = s_tts(m, args[0], fuel);
        let i = find_lib(m1.libs, name);
        if i < 0 {
            (report(m1, ErrorKind::MissingLibrary), nil_tok())
        } else {
            let l = m1.libs[i];
            let updated = LibV { public: !l.public, ..l };
            (MachineV { libs: m1.libs.update(i, updated), ..m1 }, nil_tok())
        }
    }
}

/// `if`: the condition coerced to text; exactly one branch is evaluated,
/// the else branch when the text is one of the false texts.
pub open spec fn s_if(m: MachineV, args: Seq<TokenV>, fuel: nat) -> (MachineV, TokenV)
    decreases fuel, 2int, 0int,
{
    if args.len() != 3 {
        (halt(m, ErrorKind::ArgCount), nil_tok())
    } else {
        let (m1, cond) = s_tts(m, args[0], fuel);
        if is_falsy(cond) {
            s_eval(m1, args[2], fuel)
        } else {
            s_eval(m1, args[1], fuel)
        }
    }
}

/// `equals`: whether the two texts are the same.
pub open spec fn s_equals(m: MachineV, args: Seq<TokenV>, fuel: nat) -> (MachineV, TokenV)
    decreases fuel, 2int, 0int,
{
    if args.len() != 2 {
        (halt(m, ErrorKind::ArgCount), nil_tok())
    } else {
        let (m1, a) = s_tts(m, args[0], fuel);
        let (m2, b) = s_tts(m1, args[1], fuel);
        (m2, TokenV::Text(bool_seq(a == b)))
    }
}

/// `not`: true exactly for the false texts.
pub open spec fn s_not(m: MachineV, args: Seq<TokenV>, fuel: nat) -> (MachineV, TokenV)
    decreases fuel, 2int, 0int,
{
    if args.len() != 1 {
        (halt(m, ErrorKind::ArgCount), nil_tok())
    } else {
        let (m1, v) = s_tts(m, args[0], fuel);
        (m1, TokenV::Text(bool_seq(is_falsy(v))))
    }
}

/// `bigger`: numeric comparison when both texts are numbers, else a
/// comparison of their lengths.
pub open spec fn s_bigger(m: MachineV, args: Seq<TokenV>, fuel: nat) -> (MachineV, TokenV)
    decreases fuel, 2int, 0int,
{
    if args.len() != 2 {
        (halt(m, ErrorKind::ArgCount), nil_tok())
    } else {
        let (m1, a) = s_tts(m, args[0], fuel);
        let (m2, b) = s_tts(m1, args[1], fuel);
        let r = match (spec_parse_dec(a), spec_parse_dec(b)) {
            (Some(da), Some(db)) => spec_dec_lt(db, da),
            _ => a.len() > b.len(),
        };
        (m2, TokenV::Text(bool_seq(r)))
    }
}

/// `smaller`: numeric comparison when both texts are numbers, else a
/// comparison of their lengths.
pub open spec fn s_smaller(m: MachineV, args: Seq<TokenV>, fuel: nat) -> (MachineV, TokenV)
    decreases fuel, 2int, 0int,
{
    if args.len() != 2 {
        (halt(m, ErrorKind::ArgCount), nil_tok())
    } else {
        let (m1, a) = s_tts(m, args[0], fuel);
        let (m2, b) = s_tts(m1, args[1], fuel);
        let r = match (spec_parse_dec(a), spec_parse_dec(b)) {
            (Some(da), Some(db)) => spec_dec_lt(da, db),
            _ => a.len() < b.len(),
        };
        (m2, TokenV::Text(bool_seq(r)))
    }
}

/// The counted `for` loop: indices 0 to n-1, the loop variable freshly
/// bound each round unless its name is a false text.
pub open spec fn s_for_int(
    m: MachineV,
    name: Seq<char>,
    body: TokenV,
    i: nat,
    n: nat,
    last: TokenV,
    fuel: nat,
) -> (MachineV, TokenV)
    decreases fuel, 3int, n - i,
{
    if i >= n {
        (m, last)
    } else {
        let m1 = if !is_falsy(name) {
            let (mb, r) = s_let(
                m,
                seq![TokenV::Text(name), TokenV::Text(spec_render_int(false, i))],
                fuel,
            );
            mb
        } else {
            m
        };
        let (m2, r) = s_eval(m1, body, fuel);
        s_for_int(m2, name, body, i + 1, n, r, fuel)
    }
}

/// The character `for` loop: the loop variable bound to each character of
/// the text in turn.
pub open spec fn s_for_chars(
    m: MachineV,
    name: Seq<char>,
    body: TokenV,
    s: Seq<char>,
    i: nat,
    last: TokenV,
    fuel: nat,
) -> (MachineV, TokenV)
    decreases fuel, 3int, s.len() - i,
{
    if i >= s.len() {
        (m, last)
    } else {
        let (mb, r0) = s_let(
            m,
            seq![TokenV::Text(name), TokenV::Text(seq![s[i as int]])],
            fuel,
        );
        let (m2, r) = s_eval(mb, body, fuel);
        s_for_chars(m2, name, body, s, i + 1, r, fuel)
    }
}

/// `for`: over 0..n when the first text parses as a 32-bit integer, else
/// over the characters of the text; nil when there is no round.
pub open spec fn s_for(m: MachineV, args: Seq<TokenV>, fuel: nat) -> (MachineV, TokenV)
    decreases fuel, 4int, 0int,
{
    if args.len() != 3 {
        (halt(m, ErrorKind::ArgCount), nil_tok())
    } else {
        let (m1, count) = s_tts(m, args[0], fuel);
        let (m2, name) = s_tts(m1, args[1], fuel);
        match spec_parse_i32(count) {
            Some(n) => {
                let rounds = if n > 0 {
                    n as nat
                } else {
                    0
                };
                s_for_int(m2, name, args[2], 0, rounds, nil_tok(), fuel)
            },
            None => s_for_chars(m2, name, args[2], count, 0, nil_tok(), fuel),
        }
    }
}

/// The `while` loop: the condition is re-coerced before every round; each
/// round costs one fuel, and running out is fatal.
pub open spec fn s_while_loop(m: MachineV, cond: TokenV, body: TokenV, last: TokenV, fuel: nat) -> (
    MachineV,
    TokenV,
)
    decreases fuel, 3int, 0int,
{
    if m.halted {
        (m, last)
    } else if fuel == 0 {
        (halt(m, ErrorKind::OutOfFuel), last)
    } else {
        let (m1, c) = s_tts(m, cond, (fuel - 1) as nat);
        if is_falsy(c) {
            (m1, last)
        } else {
            let (m2, r) = s_eval(m1, body, (fuel - 1) as nat);
            s_while_loop(m2, cond, body, r, (fuel - 1) as nat)
        }
    }
}

/// `while`: rounds of the body while the condition's text is not false.
pub open spec fn s_while_cmd(m: MachineV, args: Seq<TokenV>, fuel: nat) -> (MachineV, TokenV)
    decreases fuel, 4int, 0int,
{
    if args.len() != 2 {
        (halt(m, ErrorKind::ArgCount), nil_tok())
    } else {
        s_while_loop(m, args[0], args[1], nil_tok(), fuel)
    }
}

/// `float`: the text brought to canonical numeric form; the words `true`,
/// `false` and `nil` count as one, zero and zero; anything else is nil.
pub open spec fn s_float(m: MachineV, args: Seq<TokenV>, fuel: nat) -> (MachineV, TokenV)
    decreases fuel, 2int, 0int,
{
    if args.len() != 1 {
        (halt(m, ErrorKind::ArgCount), nil_tok())
    } else {
        let (m1, v) = s_tts(m, args[0], fuel);
        if v == "true"@ {
            (m1, TokenV::Text(spec_render_int(false, 1)))
        } else if v == "false"@ || v == "nil"@ {
            (m1, TokenV::Text(spec_render_int(false, 0)))
        } else {
            match spec_parse_dec(v) {
                Some(d) => (m1, TokenV::Text(spec_render_dec(d))),
                None => (m1, nil_tok()),
            }
        }
    }
}

/// `int`: the text truncated toward zero and saturated to 32-bit range;
/// the words `true`, `false` and `nil` count as one, zero and zero;
/// anything else is nil.
pub open spec fn s_int(m: MachineV, args: Seq<TokenV>, fuel: nat) -> (MachineV, TokenV)
    decreases fuel, 2int, 0int,
{
    if args.len() != 1 {
        (halt(m, ErrorKind::ArgCount), nil_tok())
    } else {
        let (m1, v) = s_tts(m, args[0], fuel);
        if v == "true"@ {
            (m1, TokenV::Text(spec_render_int(false, 1)))
        } else if v == "false"@ || v == "nil"@ {
            (m1, TokenV::Text(spec_render_int(false, 0)))
        } else {
            match spec_parse_dec(v) {
                Some(d) => (m1, TokenV::Text(spec_int_cast(d))),
                None => (m1, nil_tok()),
            }
        }
    }
}

/// `bool`: whether the text is a nonzero number; the words `true`, `false`
/// and `nil` map directly; anything else is nil.
pub open spec fn s_bool(m: MachineV, args: Seq<TokenV>, fuel: nat) -> (MachineV, TokenV)
    decreases fuel, 2int, 0int,
{
    if args.len() != 1 {
        (halt(m, ErrorKind::ArgCount), nil_tok())
    } else {
        let (m1, v) = s_tts(m, args[0], fuel);
        if v == "true"@ {
            (m1, TokenV::Text(bool_seq(true)))
        } else if v == "false"@ || v == "nil"@ {
            (m1, TokenV::Text(bool_seq(false)))
        } else {
            match spec_parse_dec(v) {
                Some(d) => (m1, TokenV::Text(bool_seq(d.mant != 0))),
                None => (m1, nil_tok()),
            }
        }
    }
}

/// Both operand texts parsed as numbers, for the arithmetic commands.
pub open spec fn s_two_numbers(m: MachineV, args: Seq<TokenV>, fuel: nat) -> (
    MachineV,
    Option<(Dec, Dec)>,
)
    decreases fuel, 2int, 0int,
{
    let (m1, a) = s_tts(m, args[0], fuel);
    let (m2, b) = s_tts(m1, args[1], fuel);
    match (spec_parse_dec(a), spec_parse_dec(b)) {
        (Some(da), Some(db)) => (m2, Some((da, db))),
        _ => (m2, None),
    }
}

/// `+`: the exact sum of the two numbers; non-numbers are reported and
/// yield nil.
pub open spec fn s_add(m: MachineV, args: Seq<TokenV>, fuel: nat) -> (MachineV, TokenV)
    decreases fuel, 3int, 0int,
{
    if args.len() != 2 {
        (halt(m, ErrorKind::ArgCount), nil_tok())
    } else {
        let (m2, nums) = s_two_numbers(m, args, fuel);
        match nums {
            Some((da, db)) => (m2, TokenV::Text(spec_render_dec(spec_dec_add(da, db)))),
            None => (report(m2, ErrorKind::NotANumber), nil_tok()),
        }
    }
}

/// `-`: the exact difference of the two numbers.
pub open spec fn s_sub(m: MachineV, args: Seq<TokenV>, fuel: nat) -> (MachineV, TokenV)
    decreases fuel, 3int, 0int,
{
    if args.len() != 2 {
        (halt(m, ErrorKind::ArgCount), nil_tok())
    } else {
        let (m2, nums) = s_two_numbers(m, args, fuel);
        match nums {
            Some((da, db)) => (m2, TokenV::Text(spec_render_dec(spec_dec_sub(da, db)))),
            None => (report(m2, ErrorKind::NotANumber), nil_tok()),
        }
    }
}

/// `*`: the exact product of the two numbers.
pub open spec fn s_mul(m: MachineV, args: Seq<TokenV>, fuel: nat) -> (MachineV, TokenV)
    decreases fuel, 3int, 0int,
{
    if args.len() != 2 {
        (halt(m, ErrorKind::ArgCount), nil_tok())
    } else {
        let (m2, nums) = s_two_numbers(m, args, fuel);
        match nums {
            Some((da, db)) => (m2, TokenV::Text(spec_render_dec(spec_dec_mul(da, db)))),
            None => (report(m2, ErrorKind::NotANumber), nil_tok()),
        }
    }
}

/// `/`: the quotient of the two numbers; a zero divisor is reported and
/// yields nil.
pub open spec fn s_div(m: MachineV, args: Seq<TokenV>, fuel: nat) -> (MachineV, TokenV)
    decreases fuel, 3int, 0int,
{
    if args.len() != 2 {
        (halt(m, ErrorKind::ArgCount), nil_tok())
    } else {
        let (m2, nums) = s_two_numbers(m, args, fuel);
        match nums {
            Some((da, db)) => {
                match spec_dec_div(da, db) {
                    Some(q) => (m2, TokenV::Text(spec_render_dec(q))),
                    None => (report(m2, ErrorKind::DivideByZero), nil_tok()),
                }
            },
            None => (report(m2, ErrorKind::NotANumber), nil_tok()),
        }
    }
}

/// `%`: the remainder of the two numbers, with the sign of the dividend;
/// a zero divisor is reported and yields nil.
pub open spec fn s_mod(m: MachineV, args: Seq<TokenV>, fuel: nat) -> (MachineV, TokenV)
    decreases fuel, 3int, 0int,
{
    if args.len() != 2 {
        (halt(m, ErrorKind::ArgCount), nil_tok())
    } else {
        let (m2, nums) = s_two_numbers(m, args, fuel);
        match nums {
            Some((da, db)) => {
                match spec_dec_mod(da, db) {
                    Some(q) => (m2, TokenV::Text(spec_render_dec(q))),
                    None => (report(m2, ErrorKind::DivideByZero), nil_tok()),
                }
            },
            None => (report(m2, ErrorKind::NotANumber), nil_tok()),
        }
    }
}

/// `input`: the prompt joins the output trace; the next queued input line
/// is consumed and returned, or the empty text when none is queued.
pub open spec fn s_input(m: MachineV, args: Seq<TokenV>, fuel: nat) -> (MachineV, TokenV)
    decreases fuel, 2int, 0int,
{
    if args.len() != 1 {
        (halt(m, ErrorKind::ArgCount), nil_tok())
    } else {
        let (m1, prompt) = s_tts(m, args[0], fuel);
        let m2 = MachineV { output: m1.output.push(prompt), ..m1 };
        if m2.inputs.len() > 0 {
            (MachineV { inputs: m2.inputs.drop_first(), ..m2 }, TokenV::Text(m2.inputs[0]))
        } else {
            (m2, empty_tok())
        }
    }
}

/// `sleep`: the argument is coerced; the machine itself never blocks, so
/// the command only yields nil.
pub open spec fn s_sleep(m: MachineV, args: Seq<TokenV>, fuel: nat) -> (MachineV, TokenV)
    decreases fuel, 2int, 0int,
{
    if args.len() != 1 {
        (halt(m, ErrorKind::ArgCount), nil_tok())
    } else {
        let (m1, v) = s_tts(m, args[0], fuel);
        (m1, nil_tok())
    }
}

/// `file.read`: the stored contents of the named file, or nil.
pub open spec fn s_readf(m: MachineV, args: Seq<TokenV>, fuel: nat) -> (MachineV, TokenV)
    decreases fuel, 2int, 0int,
{
    if args.len() != 1 {
        (halt(m, ErrorKind::ArgCount), nil_tok())
    } else {
        let (m1, name) = s_tts(m, args[0], fuel);
        let i = find_pair(m1.files, name);
        if i < 0 {
            (m1, nil_tok())
        } else {
            (m1, TokenV::Text(m1.files[i].1))
        }
    }
}

/// `file.write`: the named file is created or replaced with the contents.
pub open spec fn s_writef(m: MachineV, args: Seq<TokenV>, fuel: nat) -> (MachineV, TokenV)
    decreases fuel, 2int, 0int,
{
    if args.len() != 2 {
        (halt(m, ErrorKind::ArgCount), nil_tok())
    } else {
        let (m1, name) = s_tts(m, args[0], fuel);
        let (m2, contents) = s_tts(m1, args[1], fuel);
        (
            MachineV { files: drop_file(m2.files, name).push((name, contents)), ..m2 },
            TokenV::Text(bool_seq(true)),
        )
    }
}

/// `file.make`: the named file is created empty when absent.
pub open spec fn s_makef(m: MachineV, args: Seq<TokenV>, fuel: nat) -> (MachineV, TokenV)
    decreases fuel, 2int, 0int,
{
    if args.len() != 1 {
        (halt(m, ErrorKind::ArgCount), nil_tok())
    } else {
        let (m1, name) = s_tts(m, args[0], fuel);
        if find_pair(m1.files, name) >= 0 {
            (m1, TokenV::Text(bool_seq(false)))
        } else {
            (
                MachineV { files: m1.files.push((name, Seq::empty())), ..m1 },
                TokenV::Text(bool_seq(true)),
            )
        }
    }
}

/// `file.exists`: whether the named file is stored.
pub open spec fn s_existsf(m: MachineV, args: Seq<TokenV>, fuel: nat) -> (MachineV, TokenV)
    decreases fuel, 2int, 0int,
{
    if args.len() != 1 {
        (halt(m, ErrorKind::ArgCount), nil_tok())
    } else {
        let (m1, name) = s_tts(m, args[0], fuel);
        (m1, TokenV::Text(bool_seq(find_pair(m1.files, name) >= 0)))
    }
}

/// `file.remove`: the named file is removed; whether it was there.
pub open spec fn s_removef(m: MachineV, args: Seq<TokenV>, fuel: nat) -> (MachineV, TokenV)
    decreases fuel, 2int, 0int,
{
    if args.len() != 1 {
        (halt(m, ErrorKind::ArgCount), nil_tok())
    } else {
        let (m1, name) = s_tts(m, args[0], fuel);
        let i = find_pair(m1.files, name);
        if i < 0 {
            (m1, TokenV::Text(bool_seq(false)))
        } else {
            (MachineV { files: m1.files.remove(i), ..m1 }, TokenV::Text(bool_seq(true)))
        }
    }
}

/// Top-level commands of a program evaluated in order, results discarded.
pub open spec fn s_run(m: MachineV, cmds: Seq<TokenV>, i: nat, fuel: nat) -> MachineV
    decreases fuel, 5int, cmds.len() - i,
{
    if i >= cmds.len() {
        m
    } else {
        let (m1, r) = s_eval(m, cmds[i as int], fuel);
        s_run(m1, cmds, i + 1, fuel)
    }
}

/// The key of a merged entry: the module path, a slash, the original key.
pub open spec fn qualified(path: Seq<char>, key: Seq<char>) -> Seq<char> {
    path + seq!['/'] + key
}

/// The public variables of the module merged into the saved store under
/// qualified names, replacing clashes.
pub open spec fn merge_vars(saved: Seq<VarV>, sub: Seq<VarV>, path: Seq<char>) -> Seq<VarV>
    decreases sub.len(),
{
    if sub.len() == 0 {
        saved
    } else {
        let rest = merge_vars(saved, sub.drop_last(), path);
        let v = sub.last();
        if v.public {
            let key = qualified(path, v.key);
            drop_var(rest, key).push(VarV { key, ..v })
        } else {
            rest
        }
    }
}

/// The public functions of the module merged likewise.
pub open spec fn merge_funcs(saved: Seq<FunV>, sub: Seq<FunV>, path: Seq<char>) -> Seq<FunV>
    decreases sub.len(),
{
    if sub.len() == 0 {
        saved
    } else {
        let rest = merge_funcs(saved, sub.drop_last(), path);
        let f = sub.last();
        if f.public {
            let key = qualified(path, f.key);
            drop_fun(rest, key).push(FunV { key, ..f })
        } else {
            rest
        }
    }
}

/// The public libraries of the module merged likewise.
pub open spec fn merge_libs(saved: Seq<LibV>, sub: Seq<LibV>, path: Seq<char>) -> Seq<LibV>
    decreases sub.len(),
{
    if sub.len() == 0 {
        saved
    } else {
        let rest = merge_libs(saved, sub.drop_last(), path);
        let l = sub.last();
        if l.public {
            let key = qualified(path, l.key);
            drop_lib(rest, key).push(LibV { key, ..l })
        } else {
            rest
        }
    }
}

/// `import`: the module source under the given path is parsed and fully
/// evaluated in an emptied environment (sharing files, modules, inputs and
/// the output trace); its public entries then join the saved environment
/// under qualified names. A missing module or a syntax error is fatal.
pub open spec fn s_import(m: MachineV, args: Seq<TokenV>, fuel: nat) -> (MachineV, TokenV)
    decreases fuel, 6int, 0int,
{
    if args.len() == 0 {
        (halt(m, ErrorKind::ArgCount), nil_tok())
    } else {
        let (m1, path) = s_tts(m, args[args.len() - 1], fuel);
        let i = find_pair(m1.modules, path);
        if i < 0 {
            (halt(m1, ErrorKind::MissingModule), nil_tok())
        } else {
            let parsed = spec_parse(initial_parser(m1.modules[i].1));
            if parsed.error is Some {
                (halt(m1, ErrorKind::Syntax), nil_tok())
            } else {
                let sub0 = MachineV { vars: Seq::empty(), funcs: Seq::empty(), libs: Seq::empty(), ..m1 };
                let sub = s_run(sub0, parsed.output, 0, fuel);
                if sub.halted {
                    (MachineV { vars: m1.vars, funcs: m1.funcs, libs: m1.libs, ..sub }, nil_tok())
                } else {
                    let merged = MachineV {
                        vars: merge_vars(m1.vars, sub.vars, path),
                        funcs: merge_funcs(m1.funcs, sub.funcs, path),
                        libs: merge_libs(m1.libs, sub.libs, path),
                        ..sub
                    };
                    (merged, TokenV::Text(path))
                }
            }
        }
    }
}

/// A whole program: the stored instructions taken out and evaluated in
/// order, each with a fresh budget.
pub open spec fn s_whole(m: MachineV) -> MachineV {
    let emptied = MachineV { instructions: Seq::empty(), ..m };
    s_run(emptied, m.instructions, 0, DEFAULT_FUEL as nat)
}

} // verus!
