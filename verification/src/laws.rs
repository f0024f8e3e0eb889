//! Laws of the machine, stated over the specification functions and proved
//! once for every state, name and budget.

use crate::machine::lemma_find_var_at;
use crate::machine::lemma_find_var_none;
use crate::parser::initial_parser;
use crate::parser::spec_bump;
use crate::parser::spec_clear_garbage;
use crate::parser::spec_parse;
use crate::parser::spec_pop_args;
use crate::parser::spec_run;
use crate::parser::spec_step;
use crate::parser::ParserState;
use crate::parser::ParserV;
use crate::parser::TokenV;
use crate::parser::FRAME_MARKER;
use crate::parser::plain_name;
use crate::parser::plain_name_char;
use crate::parser::plain_text;
use crate::parser::plain_text_char;
use crate::parser::ser_args;
use crate::parser::ser_token;
use crate::parser::wf_token;
use crate::parser::wf_tokens;
use crate::strutil::spec_trim;
use crate::semantics::bump_count;
use crate::semantics::drop_var;
use crate::semantics::find_var;
use crate::semantics::is_falsy;
use crate::semantics::s_clone;
use crate::semantics::s_eval;
use crate::semantics::s_get;
use crate::semantics::s_if;
use crate::semantics::s_let;
use crate::semantics::s_tts;
use crate::semantics::s_upgrade;
use crate::semantics::VarV;
use vstd::prelude::*;

verus! {

/// Every variable left by `drop_var` carries another key.
pub proof fn lemma_drop_var_no_key(s: Seq<VarV>, key: Seq<char>)
    ensures
        forall|j: int| 0 <= j < drop_var(s, key).len() ==> drop_var(s, key)[j].key != key,
    decreases s.len(),
{
    reveal_with_fuel(Seq::filter, 2);
    if s.len() > 0 {
        lemma_drop_var_no_key(s.drop_last(), key);
        assert(drop_var(s, key) == if s.last().key != key {
            drop_var(s.drop_last(), key).push(s.last())
        } else {
            drop_var(s.drop_last(), key)
        });
    }
}

/// `clone` is a pure read: the variable store is preserved exactly, and
/// when the variable exists, nothing in the machine changes at all and its
/// stored text is the result — however often it is repeated.
pub proof fn lemma_clone_keeps_store(m: crate::semantics::MachineV, name: Seq<char>, fuel: nat)
    ensures
        ({
            let (m2, r) = s_clone(m, seq![TokenV::Text(name)], fuel);
            &&& m2.vars == m.vars
            &&& find_var(m.vars, name) >= 0 ==> m2 == m && r == TokenV::Text(
                m.vars[find_var(m.vars, name)].value,
            )
        }),
{
    assert(s_tts(m, TokenV::Text(name), fuel) == (m, name));
}

/// `upgrade` extends the remaining-reads budget of an existing variable by
/// exactly one, and touches nothing else of the store.
pub proof fn lemma_upgrade_extends(m: crate::semantics::MachineV, name: Seq<char>, fuel: nat)
    requires
        find_var(m.vars, name) >= 0,
    ensures
        ({
            let i = find_var(m.vars, name);
            let (m2, r) = s_upgrade(m, seq![TokenV::Text(name)], fuel);
            &&& m2.vars == m.vars.update(i, VarV { ref_count: bump_count(m.vars[i].ref_count), ..m.vars[i] })
            &&& r == TokenV::Text(name)
        }),
{
    assert(s_tts(m, TokenV::Text(name), fuel) == (m, name));
}

/// Variable consumption: a freshly `let` variable has budget one, so one
/// `get` of the same plain name yields exactly the stored text and removes
/// the entry; no variable under that name remains.
pub proof fn lemma_let_then_get(
    m: crate::semantics::MachineV,
    name: Seq<char>,
    value: Seq<char>,
    fuel: nat,
)
    ensures
        ({
            let (m1, r1) = s_let(m, seq![TokenV::Text(name), TokenV::Text(value)], fuel);
            let (m2, r2) = s_get(m1, seq![TokenV::Text(name)], fuel);
            &&& r2 == TokenV::Text(value)
            &&& find_var(m2.vars, name) == -1
            &&& m2.vars == drop_var(m.vars, name)
        }),
{
    let (m1, r1) = s_let(m, seq![TokenV::Text(name), TokenV::Text(value)], fuel);
    let kept = drop_var(m.vars, name);
    let entry = VarV { key: name, value, ref_count: 1, public: false };
    assert(m1.vars == kept.push(entry));
    lemma_drop_var_no_key(m.vars, name);
    assert(kept.push(entry)[kept.len() as int] == entry);
    lemma_find_var_at(m1.vars, name, kept.len() as int);
    let (m2, r2) = s_get(m1, seq![TokenV::Text(name)], fuel);
    assert(m1.vars.remove(kept.len() as int) =~= kept);
    lemma_find_var_none(kept, name);
}

/// `if` evaluates exactly one branch: the else branch precisely when the
/// condition's text is one of the closed set of false texts, the then
/// branch otherwise.
pub proof fn lemma_if_picks_branch(
    m: crate::semantics::MachineV,
    cond: Seq<char>,
    then_branch: TokenV,
    else_branch: TokenV,
    fuel: nat,
)
    ensures
        s_if(m, seq![TokenV::Text(cond), then_branch, else_branch], fuel) == (if is_falsy(cond) {
            s_eval(m, else_branch, fuel)
        } else {
            s_eval(m, then_branch, fuel)
        }),
{
    assert(s_tts(m, TokenV::Text(cond), fuel) == (m, cond));
}

/// The closed set of false texts, and nothing else nearby, is false.
pub proof fn lemma_falsy_closed_set()
    ensures
        is_falsy("false"@),
        is_falsy("0"@),
        is_falsy("nil"@),
        is_falsy(""@),
        is_falsy("0.0"@),
        !is_falsy("1"@),
        !is_falsy("true"@),
        !is_falsy("0.00"@),
{
    reveal_strlit("false");
    reveal_strlit("0");
    reveal_strlit("nil");
    reveal_strlit("");
    reveal_strlit("0.0");
    reveal_strlit("1");
    reveal_strlit("true");
    reveal_strlit("0.00");
    assert(""@ =~= Seq::<char>::empty());
    assert("false"@.len() == 5 && "0"@.len() == 1 && "nil"@.len() == 3 && "0.0"@.len() == 3);
    assert("1"@.len() == 1 && "true"@.len() == 4 && "0.00"@.len() == 4);
    assert("1"@[0] == '1' && "0"@[0] == '0');
    assert("1"@ != "0"@);
}

/// A stopped machine is frozen: evaluating any further token changes
/// nothing and yields nil.
pub proof fn lemma_halted_is_frozen(m: crate::semantics::MachineV, t: TokenV, fuel: nat)
    requires
        m.halted,
    ensures
        s_eval(m, t, fuel) == (m, crate::semantics::nil_tok()),
{
}

/// A stopped machine stays frozen through a whole program.
pub proof fn lemma_halted_run_frozen(
    m: crate::semantics::MachineV,
    cmds: Seq<TokenV>,
    i: nat,
    fuel: nat,
)
    requires
        m.halted,
        i <= cmds.len(),
    ensures
        crate::semantics::s_run(m, cmds, i, fuel) == m,
    decreases cmds.len() - i,
{
    if i < cmds.len() {
        lemma_halted_is_frozen(m, cmds[i as int], fuel);
        lemma_halted_run_frozen(m, cmds, i + 1, fuel);
    }
}

/// Reading a single character is one step.
proof fn lemma_run_one(p: ParserV, c: char)
    requires
        p.error is None,
    ensures
        spec_run(p, seq![c]) == spec_step(p, c),
{
    let a: Seq<char> = seq![c];
    assert(a.drop_first() =~= Seq::<char>::empty());
    assert(spec_run(p, a) == spec_run(spec_step(p, a[0]), a.drop_first()));
    assert(spec_run(spec_step(p, a[0]), a.drop_first()) == spec_step(p, a[0]));
}

/// Reading a concatenation is reading the parts one after the other.
pub proof fn lemma_run_append(p: ParserV, a: Seq<char>, b: Seq<char>)
    ensures
        spec_run(p, a + b) == spec_run(spec_run(p, a), b),
    decreases a.len(),
{
    if p.error is Some {
        assert(spec_run(p, a) == p);
        assert(spec_run(p, a + b) == p);
        assert(spec_run(p, b) == p);
    } else if a.len() == 0 {
        assert(a + b =~= b);
        assert(spec_run(p, a) == p);
    } else {
        assert((a + b).len() > 0);
        assert((a + b)[0] == a[0]);
        assert((a + b).drop_first() =~= a.drop_first() + b);
        lemma_run_append(spec_step(p, a[0]), a.drop_first(), b);
        assert(spec_run(p, a + b) == spec_run(spec_step(p, (a + b)[0]), (a + b).drop_first()));
        assert(spec_run(p, a) == spec_run(spec_step(p, a[0]), a.drop_first()));
    }
}

/// Inside a string literal, plain characters only accumulate.
proof fn lemma_run_string_chars(p: ParserV, s: Seq<char>)
    requires
        p.state is String,
        p.error is None,
        plain_text(s),
        plain_text(p.temp),
    ensures
        spec_run(p, s) == (ParserV { temp: p.temp + s, ..p }),
    decreases s.len(),
{
    if s.len() == 0 {
        assert(p.temp + s =~= p.temp);
    } else {
        let c = s[0];
        assert(plain_text_char(c));
        if c == 'n' && p.temp.len() > 0 {
            assert(p.temp[p.temp.len() - 1] != '\\');
        }
        let p2 = ParserV { temp: p.temp.push(c), ..p };
        assert(spec_step(p, c) == p2);
        assert(plain_text(p2.temp)) by {
            assert(forall|i: int|
                0 <= i < p2.temp.len() ==> p2.temp[i] == (if i < p.temp.len() {
                    p.temp[i]
                } else {
                    c
                }));
        }
        lemma_run_string_chars(p2, s.drop_first());
        assert(p2.temp + s.drop_first() =~= p.temp + s);
    }
}

/// In the plain-token state, name characters only accumulate (and move the
/// column).
proof fn lemma_run_name_chars(p: ParserV, s: Seq<char>)
    requires
        p.state is Token,
        p.error is None,
        plain_name(s),
    ensures
        ({
            let q = spec_run(p, s);
            q == (ParserV { temp: p.temp + s, column: q.column, ..p })
        }),
    decreases s.len(),
{
    if s.len() == 0 {
        assert(p.temp + s =~= p.temp);
    } else {
        let c = s[0];
        assert(plain_name_char(c));
        let p2 = ParserV { temp: p.temp.push(c), column: spec_bump(p.column), ..p };
        assert(spec_step(p, c) == p2);
        lemma_run_name_chars(p2, s.drop_first());
        assert(p2.temp + s.drop_first() =~= p.temp + s);
    }
}

/// Each element of a well-formed token sequence is well formed.
proof fn lemma_wf_tokens_all(s: Seq<TokenV>)
    requires
        wf_tokens(s),
    ensures
        forall|j: int| 0 <= j < s.len() ==> wf_token(#[trigger] s[j]),
    decreases s.len(),
{
    if s.len() > 0 {
        lemma_wf_tokens_all(s.drop_last());
        assert(forall|j: int| 0 <= j < s.len() - 1 ==> s[j] == s.drop_last()[j]);
    }
}

/// Popping a marker-delimited run collects exactly the run, reversed onto
/// the accumulator.
proof fn lemma_pop_args_run(base: Seq<TokenV>, items: Seq<TokenV>, acc: Seq<TokenV>)
    requires
        forall|j: int| 0 <= j < items.len() ==> #[trigger] items[j] != TokenV::Marker(FRAME_MARKER),
    ensures
        spec_pop_args(base.push(TokenV::Marker(FRAME_MARKER)) + items, acc) == Some(
            (base, acc + items.reverse()),
        ),
    decreases items.len(),
{
    let out = base.push(TokenV::Marker(FRAME_MARKER)) + items;
    if items.len() == 0 {
        assert(out =~= base.push(TokenV::Marker(FRAME_MARKER)));
        assert(out.len() > 0);
        assert(out.last() == TokenV::Marker(FRAME_MARKER));
        assert(out.drop_last() =~= base);
        assert(acc + items.reverse() =~= acc);
    } else {
        assert(out.len() > 0);
        assert(out.last() == items.last());
        assert(items.last() != TokenV::Marker(FRAME_MARKER));
        assert(out.drop_last() =~= base.push(TokenV::Marker(FRAME_MARKER)) + items.drop_last());
        assert forall|j: int| 0 <= j < items.drop_last().len() implies #[trigger] items.drop_last()[j]
            != TokenV::Marker(FRAME_MARKER) by {
            assert(items.drop_last()[j] == items[j]);
        }
        lemma_pop_args_run(base, items.drop_last(), acc.push(items.last()));
        assert(acc.push(items.last()) + items.drop_last().reverse() =~= acc + items.reverse());
    }
}

/// Reading the serialized form of a well-formed token appends exactly that
/// token to the output.
pub proof fn lemma_run_ser_token(p: ParserV, t: TokenV)
    requires
        wf_token(t),
        p.state is Token,
        p.temp == Seq::<char>::empty(),
        p.error is None,
    ensures
        ({
            let q = spec_run(p, ser_token(t));
            &&& q.output == p.output.push(t)
            &&& q.temp == Seq::<char>::empty()
            &&& q.state is Token
            &&& q.error is None
            &&& q.source == p.source
        }),
    decreases t, 0int,
{
    match t {
        TokenV::Text(s) => {
            let a1: Seq<char> = seq!['"'];
            let a3: Seq<char> = seq!['"'];
            assert(ser_token(t) =~= (a1 + s) + a3);
            lemma_run_append(p, a1 + s, a3);
            lemma_run_append(p, a1, s);
            let p1 = spec_run(p, a1);
            assert(a1 =~= seq!['"']);
            lemma_run_one(p, '"');
            assert(p1 == spec_step(p, '"'));
            assert(p1 == (ParserV {
                state: ParserState::String,
                column: spec_bump(p.column),
                ..p
            }));
            lemma_run_string_chars(p1, s);
            let p2 = spec_run(p1, s);
            assert(p2.temp =~= s);
            let p3 = spec_run(p2, a3);
            assert(a3 =~= seq!['"']);
            lemma_run_one(p2, '"');
            assert(p3 == spec_step(p2, '"'));
            if s.len() > 0 {
                assert(s[s.len() - 1] != '\\');
            }
            assert(p3.output == p.output.push(TokenV::Text(s)));
            assert(p3.temp =~= Seq::<char>::empty());
        },
        TokenV::Command { name, arguments } => {
            let a2: Seq<char> = seq!['('];
            let a4: Seq<char> = seq![')'];
            let inner = ser_args(arguments);
            assert(ser_token(t) =~= ((name + a2) + inner) + a4);
            lemma_run_append(p, (name + a2) + inner, a4);
            lemma_run_append(p, name + a2, inner);
            lemma_run_append(p, name, a2);
            lemma_run_name_chars(p, name);
            let p1 = spec_run(p, name);
            assert(p1.temp =~= name);
            let p2 = spec_run(p1, a2);
            assert(a2 =~= seq!['(']);
            lemma_run_one(p1, '(');
            assert(p2 == spec_step(p1, '('));
            assert(spec_trim(name) == name) by {
                if name.len() > 0 {
                    assert(plain_name_char(name[0]));
                    assert(plain_name_char(name[name.len() - 1]));
                }
                crate::strutil::lemma_trim_front_clean(name);
                crate::strutil::lemma_trim_back_clean(name);
            }
            let cmd0 = TokenV::Command { name, arguments: Seq::empty() };
            assert(p2.output == p1.output.push(cmd0).push(TokenV::Marker(FRAME_MARKER)));
            assert(p2.temp =~= Seq::<char>::empty());
            lemma_run_ser_args(p2, arguments);
            let p3 = spec_run(p2, inner);
            assert(p3.output == p2.output + arguments);
            let p4 = spec_run(p3, a4);
            assert(a4 =~= seq![')']);
            lemma_run_one(p3, ')');
            assert(p4 == spec_step(p3, ')'));
            lemma_wf_tokens_all(arguments);
            assert forall|j: int| 0 <= j < arguments.len() implies #[trigger] arguments[j]
                != TokenV::Marker(FRAME_MARKER) by {
                assert(wf_token(arguments[j]));
            }
            assert(p3.output =~= p.output.push(cmd0).push(TokenV::Marker(FRAME_MARKER))
                + arguments);
            lemma_pop_args_run(p.output.push(cmd0), arguments, Seq::empty());
            assert(spec_pop_args(p3.output, Seq::empty()) == Some(
                (p.output.push(cmd0), Seq::empty() + arguments.reverse()),
            ));
            assert(Seq::empty() + arguments.reverse() =~= arguments.reverse());
            assert(arguments.reverse().reverse() =~= arguments);
            assert(p.output.push(cmd0).last() == cmd0);
            assert(p.output.push(cmd0).drop_last() =~= p.output);
            assert(p4.output == p.output.push(t));
        },
        TokenV::Marker(_) => {
            assert(false);
        },
    }
}

/// Reading the serialized arguments appends exactly those tokens to the
/// output.
pub proof fn lemma_run_ser_args(p: ParserV, items: Seq<TokenV>)
    requires
        wf_tokens(items),
        p.state is Token,
        p.temp == Seq::<char>::empty(),
        p.error is None,
    ensures
        ({
            let q = spec_run(p, ser_args(items));
            &&& q.output == p.output + items
            &&& q.temp == Seq::<char>::empty()
            &&& q.state is Token
            &&& q.error is None
            &&& q.source == p.source
        }),
    decreases items, 1int,
{
    if items.len() == 0 {
        assert(spec_run(p, ser_args(items)) == p);
        assert(p.output + items =~= p.output);
    } else {
        let front = items.drop_last();
        let sp: Seq<char> = seq![' '];
        assert(ser_args(items) =~= (ser_args(front) + sp) + ser_token(items.last()));
        lemma_run_append(p, ser_args(front) + sp, ser_token(items.last()));
        lemma_run_append(p, ser_args(front), sp);
        lemma_run_ser_args(p, front);
        let p1 = spec_run(p, ser_args(front));
        let p2 = spec_run(p1, sp);
        assert(sp =~= seq![' ']);
        lemma_run_one(p1, ' ');
        assert(p2 == spec_step(p1, ' '));
        assert(p2.temp =~= Seq::<char>::empty());
        lemma_run_ser_token(p2, items.last());
        let q = spec_run(p2, ser_token(items.last()));
        assert(q.output =~= p.output + items);
    }
}

/// Every output token of a parse of serialized commands is a command, so
/// the closing garbage sweep keeps them all.
proof fn lemma_clear_garbage_all_commands(p: ParserV)
    requires
        forall|j: int| 0 <= j < p.output.len() ==> #[trigger] p.output[j] matches TokenV::Command {
            ..
        },
    ensures
        spec_clear_garbage(p).output == p.output,
    decreases p.output.len(),
{
    reveal_with_fuel(Seq::filter, 2);
    if p.output.len() == 0 {
        assert(spec_clear_garbage(p).output =~= p.output);
    } else {
        let p2 = ParserV { output: p.output.drop_last(), ..p };
        assert(forall|j: int|
            0 <= j < p2.output.len() ==> #[trigger] p2.output[j] == p.output[j]);
        lemma_clear_garbage_all_commands(p2);
        assert(p.output.last() matches TokenV::Command { .. });
        assert(spec_clear_garbage(p).output == spec_clear_garbage(p2).output.push(p.output.last()));
        assert(spec_clear_garbage(p2).output.push(p.output.last()) =~= p.output);
    }
}

/// A program of well-formed commands.
pub open spec fn wf_program(cmds: Seq<TokenV>) -> bool {
    wf_tokens(cmds) && forall|j: int|
        0 <= j < cmds.len() ==> #[trigger] cmds[j] matches TokenV::Command { .. }
}

/// Round trip: a program of well-formed commands, re-serialized to nested
/// call form and parsed again, reproduces exactly the same command
/// structure — names and argument order preserved — with no syntax error.
pub proof fn lemma_parse_round_trip(cmds: Seq<TokenV>)
    requires
        wf_program(cmds),
    ensures
        ({
            let parsed = spec_parse(initial_parser(ser_args(cmds)));
            &&& parsed.error is None
            &&& parsed.output == cmds
        }),
{
    let p0 = initial_parser(ser_args(cmds));
    lemma_run_ser_args(p0, cmds);
    let q = spec_run(p0, p0.source);
    assert(q.output =~= cmds);
    lemma_clear_garbage_all_commands(q);
}

} // verus!
