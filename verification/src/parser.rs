//! The single-pass lexer/parser.
//!
//! Source text is read one character at a time by a three-state machine
//! (plain tokens, string literals, comments). The output sequence itself is
//! used as an implicit stack: `(` pushes the new command followed by a
//! marker, and `)` pops the tokens above the nearest marker and makes them
//! the arguments of the command beneath it. The specification functions in
//! this module state that machine mathematically, and `parse` is proved to
//! compute exactly their fold over the source.

use crate::strutil::chars_to_string;
use crate::strutil::spec_trim;
use crate::strutil::str_to_chars;
use crate::strutil::trim_chars;
use vstd::prelude::*;

verus! {

/// The marker value that `(` pushes and `)` searches for.
pub const FRAME_MARKER: u8 = 0x0;

/// The marker value used as the default token.
pub const IDLE_MARKER: u8 = 0xF;

/// A parsed unit: a command invocation, a literal string, or a
/// parser-internal stack marker that never reaches the evaluator.
#[derive(Debug)]
pub enum Token {
    Command(Command),
    String(String),
    PlaceHolder(u8),
}

/// A named operation together with its ordered argument tokens.
#[derive(Debug)]
pub struct Command {
    pub name: String,
    pub arguments: Vec<Token>,
}

/// The mathematical shape of a token: names and texts are character
/// sequences, argument lists are sequences of token values.
pub enum TokenV {
    Command { name: Seq<char>, arguments: Seq<TokenV> },
    Text(Seq<char>),
    Marker(u8),
}

/// The mathematical value of a token.
pub open spec fn token_view(t: Token) -> TokenV
    decreases t,
{
    match t {
        Token::String(s) => TokenV::Text(s@),
        Token::PlaceHolder(b) => TokenV::Marker(b),
        Token::Command(c) => TokenV::Command { name: c.name@, arguments: args_view(c.arguments@) },
    }
}

/// The mathematical values of the elements of a token sequence.
pub open spec fn args_view(s: Seq<Token>) -> Seq<TokenV>
    decreases s,
{
    if s.len() == 0 {
        Seq::empty()
    } else {
        args_view(s.drop_last()).push(token_view(s.last()))
    }
}

impl View for Token {
    type V = TokenV;

    open spec fn view(&self) -> TokenV {
        token_view(*self)
    }
}

/// The views of the elements of a token sequence, given pointwise.
pub open spec fn tokens_view(s: Seq<Token>) -> Seq<TokenV> {
    Seq::new(s.len(), |i: int| s[i]@)
}

/// `args_view` agrees with the pointwise view of the same sequence.
pub proof fn lemma_args_view_is_pointwise(s: Seq<Token>)
    ensures
        args_view(s) == tokens_view(s),
    decreases s,
{
    if s.len() > 0 {
        lemma_args_view_is_pointwise(s.drop_last());
        assert(args_view(s) =~= tokens_view(s));
    } else {
        assert(args_view(s) =~= tokens_view(s));
    }
}

impl Default for Token {
    /// The default token is the idle marker, as for the source language.
    fn default() -> (r: Token)
        ensures
            r@ == TokenV::Marker(IDLE_MARKER),
    {
        Token::PlaceHolder(IDLE_MARKER)
    }
}

/// What a syntax error is about.
#[derive(Debug, Clone, Copy, PartialEq, Eq, Structural)]
pub enum ParseErrorKind {
    /// A `)` was read with no open `(` to match it.
    UnmatchedClose,
    /// The token beneath a closed frame was not a command.
    BadNesting,
}

/// A fatal syntax-error report: position and kind.
#[derive(Debug, Clone, Copy, PartialEq, Eq, Structural)]
pub struct ParseError {
    pub line: usize,
    pub column: usize,
    pub kind: ParseErrorKind,
}

/// The three states of the character reader.
#[derive(Debug, Clone, Copy)]
pub enum ParserState {
    Token,
    String,
    Comment,
}

/// The parser: position bookkeeping for diagnostics, the pending text
/// accumulator, the output sequence used as an implicit stack, and the
/// error report of the first fatal syntax error, if any.
#[derive(Debug)]
pub struct Parser {
    pub line: usize,
    pub column: usize,
    pub source: Vec<char>,
    pub temp: Vec<char>,
    pub output: Vec<Token>,
    pub state: ParserState,
    pub error: Option<ParseError>,
}

/// The mathematical state of the parser.
pub struct ParserV {
    pub line: nat,
    pub column: nat,
    pub source: Seq<char>,
    pub temp: Seq<char>,
    pub output: Seq<TokenV>,
    pub state: ParserState,
    pub error: Option<ParseError>,
}

impl View for Parser {
    type V = ParserV;

    open spec fn view(&self) -> ParserV {
        ParserV {
            line: self.line as nat,
            column: self.column as nat,
            source: self.source@,
            temp: self.temp@,
            output: tokens_view(self.output@),
            state: self.state,
            error: self.error,
        }
    }
}

/// A counter bumped by one, stopping at the machine limit.
pub open spec fn spec_bump(n: nat) -> nat {
    if n < usize::MAX as nat {
        n + 1
    } else {
        n
    }
}

/// Pending bare text is moved into the output as a string token.
pub open spec fn spec_flush(p: ParserV) -> ParserV {
    if p.temp.len() > 0 {
        ParserV { temp: Seq::empty(), output: p.output.push(TokenV::Text(p.temp)), ..p }
    } else {
        p
    }
}

/// The tokens above the nearest frame marker, popped one at a time.
/// `None` means the output emptied before a marker was found.
pub open spec fn spec_pop_args(out: Seq<TokenV>, args: Seq<TokenV>) -> Option<
    (Seq<TokenV>, Seq<TokenV>),
>
    decreases out.len(),
{
    if out.len() == 0 {
        None
    } else if out.last() == TokenV::Marker(FRAME_MARKER) {
        Some((out.drop_last(), args))
    } else {
        spec_pop_args(out.drop_last(), args.push(out.last()))
    }
}

/// The effect of a `)`: the run above the nearest marker, reversed, becomes
/// the arguments of the command beneath the marker.
pub open spec fn spec_close(p: ParserV) -> ParserV {
    let q = spec_flush(p);
    match spec_pop_args(q.output, Seq::empty()) {
        None => ParserV {
            output: Seq::empty(),
            error: Some(
                ParseError {
                    line: q.line as usize,
                    column: q.column as usize,
                    kind: ParseErrorKind::UnmatchedClose,
                },
            ),
            ..q
        },
        Some((rest, args)) => {
            if rest.len() > 0 && (rest.last() matches TokenV::Command { .. }) {
                let named = match rest.last() {
                    TokenV::Command { name, arguments } => TokenV::Command {
                        name,
                        arguments: args.reverse(),
                    },
                    t => t,
                };
                ParserV { output: rest.drop_last().push(named), ..q }
            } else {
                ParserV {
                    output: rest,
                    error: Some(
                        ParseError {
                            line: q.line as usize,
                            column: q.column as usize,
                            kind: ParseErrorKind::BadNesting,
                        },
                    ),
                    ..q
                }
            }
        },
    }
}

/// One character read in the plain-token state.
pub open spec fn spec_step_token(p: ParserV, c: char) -> ParserV {
    if c == '(' {
        let q = ParserV {
            temp: Seq::empty(),
            output: p.output.push(
                TokenV::Command { name: spec_trim(p.temp), arguments: Seq::empty() },
            ).push(TokenV::Marker(FRAME_MARKER)),
            ..p
        };
        ParserV { column: spec_bump(q.column), ..q }
    } else if c == '\r' {
        p
    } else if c == '\n' {
        let q = spec_flush(p);
        ParserV { line: spec_bump(q.line), column: 1, ..q }
    } else if c == ' ' {
        let q = spec_flush(p);
        ParserV { column: spec_bump(q.column), ..q }
    } else if c == '"' {
        let q = spec_flush(p);
        ParserV { state: ParserState::String, column: spec_bump(q.column), ..q }
    } else if c == '#' {
        let q = spec_flush(p);
        ParserV { state: ParserState::Comment, column: spec_bump(q.column), ..q }
    } else if c == ')' {
        let q = spec_close(p);
        if q.error is Some {
            q
        } else {
            ParserV { column: spec_bump(q.column), ..q }
        }
    } else {
        ParserV { temp: p.temp.push(c), column: spec_bump(p.column), ..p }
    }
}

/// One character read inside a string literal.
pub open spec fn spec_step_string(p: ParserV, c: char) -> ParserV {
    if c == '"' {
        if p.temp.len() > 0 && p.temp.last() == '\\' {
            p
        } else {
            ParserV {
                state: ParserState::Token,
                temp: Seq::empty(),
                output: p.output.push(TokenV::Text(p.temp)),
                ..p
            }
        }
    } else if c == 'n' {
        if p.temp.len() > 0 && p.temp.last() == '\\' {
            ParserV { temp: p.temp.drop_last().push('\n'), ..p }
        } else {
            ParserV { temp: p.temp.push('n'), ..p }
        }
    } else if c == '\n' {
        ParserV {
            line: spec_bump(p.line),
            column: 0,
            state: ParserState::Token,
            temp: Seq::empty(),
            output: p.output.push(TokenV::Text(p.temp)),
            ..p
        }
    } else {
        ParserV { temp: p.temp.push(c), ..p }
    }
}

/// One character read inside a comment.
pub open spec fn spec_step_comment(p: ParserV, c: char) -> ParserV {
    if c == '\n' {
        ParserV { line: spec_bump(p.line), column: 0, state: ParserState::Token, ..p }
    } else {
        p
    }
}

/// One character read, in whatever state the parser is in.
pub open spec fn spec_step(p: ParserV, c: char) -> ParserV {
    match p.state {
        ParserState::Token => spec_step_token(p, c),
        ParserState::String => spec_step_string(p, c),
        ParserState::Comment => spec_step_comment(p, c),
    }
}

/// The characters of `s` read in order, stopping at the first fatal error.
pub open spec fn spec_run(p: ParserV, s: Seq<char>) -> ParserV
    decreases s.len(),
{
    if p.error is Some || s.len() == 0 {
        p
    } else {
        spec_run(spec_step(p, s[0]), s.drop_first())
    }
}

/// Everything that is not a command is dropped from the output.
pub open spec fn spec_clear_garbage(p: ParserV) -> ParserV {
    ParserV { output: p.output.filter(|t: TokenV| t matches TokenV::Command { .. }), ..p }
}

/// The result of a whole parse: the source read to the end (or to the first
/// fatal error), then stray non-command output discarded.
pub open spec fn spec_parse(p: ParserV) -> ParserV {
    let q = spec_run(p, p.source);
    if q.error is Some {
        q
    } else {
        spec_clear_garbage(q)
    }
}

/// The state a fresh parser starts in.
pub open spec fn initial_parser(source: Seq<char>) -> ParserV {
    ParserV {
        line: 1,
        column: 0,
        source,
        temp: Seq::empty(),
        output: Seq::empty(),
        state: ParserState::Token,
        error: None,
    }
}

/// A counter bumped by one, stopping at the machine limit.
fn bump(n: usize) -> (r: usize)
    ensures
        r as nat == spec_bump(n as nat),
{
    if n < usize::MAX {
        n + 1
    } else {
        n
    }
}

impl Default for Parser {
    /// A fresh parser over empty source text.
    fn default() -> (r: Parser)
        ensures
            r@ == initial_parser(Seq::empty()),
    {
        let r = Parser {
            line: 1,
            column: 0,
            source: Vec::new(),
            temp: Vec::new(),
            output: Vec::new(),
            state: ParserState::Token,
            error: None,
        };
        proof {
            assert(r@.output =~= Seq::<TokenV>::empty());
            assert(r@.source =~= Seq::<char>::empty());
            assert(r@.temp =~= Seq::<char>::empty());
        }
        r
    }
}

impl Parser {
    /// A fresh parser over the given source text.
    pub fn new(source: &str) -> (r: Parser)
        ensures
            r@ == initial_parser(source@),
    {
        let r = Parser {
            line: 1,
            column: 0,
            source: str_to_chars(source),
            temp: Vec::new(),
            output: Vec::new(),
            state: ParserState::Token,
            error: None,
        };
        proof {
            assert(r@.output =~= Seq::<TokenV>::empty());
        }
        r
    }

    /// Pending bare text is moved into the output as a string token.
    fn flush_temp(&mut self)
        ensures
            final(self)@ == spec_flush(old(self)@),
    {
        if self.temp.len() > 0 {
            let s = chars_to_string(&self.temp);
            self.temp = Vec::new();
            self.output.push(Token::String(s));
            proof {
                assert(final(self)@.output =~= spec_flush(old(self)@).output);
            }
        }
    }

    /// One character read in the plain-token state.
    fn collect_token(&mut self, character: char)
        ensures
            final(self)@ == spec_step_token(old(self)@, character),
    {
        if character == '(' {
            let name_chars = trim_chars(&self.temp);
            let command_name = chars_to_string(&name_chars);
            self.temp = Vec::new();
            self.output.push(Token::Command(Command { name: command_name, arguments: Vec::new() }));
            self.output.push(Token::PlaceHolder(FRAME_MARKER));
            self.column = bump(self.column);
            proof {
                assert(args_view(Seq::<Token>::empty()) =~= Seq::<TokenV>::empty());
                assert(final(self)@.output =~= spec_step_token(old(self)@, character).output);
            }
        } else if character == '\r' {
        } else if character == '\n' {
            self.flush_temp();
            self.line = bump(self.line);
            self.column = 1;
        } else if character == ' ' {
            self.flush_temp();
            self.column = bump(self.column);
        } else if character == '"' {
            self.flush_temp();
            self.state = ParserState::String;
            self.column = bump(self.column);
        } else if character == '#' {
            self.flush_temp();
            self.state = ParserState::Comment;
            self.column = bump(self.column);
        } else if character == ')' {
            self.close_frame();
            if self.error.is_none() {
                self.column = bump(self.column);
            }
        } else {
            self.temp.push(character);
            self.column = bump(self.column);
        }
    }

    /// The effect of a `)`: arguments are collected down to the nearest
    /// frame marker and attached to the command beneath it.
    fn close_frame(&mut self)
        ensures
            final(self)@ == spec_close(old(self)@),
    {
        self.flush_temp();
        let ghost flushed = self@;
        let mut args: Vec<Token> = Vec::new();
        proof {
            assert(tokens_view(args@) =~= Seq::<TokenV>::empty());
        }
        loop
            invariant_except_break
                flushed == spec_flush(old(self)@),
                self@ == (ParserV { output: self@.output, ..flushed }),
                spec_pop_args(flushed.output, Seq::empty()) == spec_pop_args(
                    tokens_view(self.output@),
                    tokens_view(args@),
                ),
            ensures
                flushed == spec_flush(old(self)@),
                self@ == (ParserV { output: self@.output, ..flushed }),
                spec_pop_args(flushed.output, Seq::empty()) == Some(
                    (tokens_view(self.output@), tokens_view(args@)),
                ),
            decreases self.output@.len(),
        {
            if self.output.len() == 0 {
                proof {
                    assert(tokens_view(self.output@) =~= Seq::<TokenV>::empty());
                    assert(spec_pop_args(tokens_view(self.output@), tokens_view(args@)) is None);
                }
                self.error = Some(
                    ParseError {
                        line: self.line,
                        column: self.column,
                        kind: ParseErrorKind::UnmatchedClose,
                    },
                );
                proof {
                    assert(final(self)@ == spec_close(old(self)@));
                }
                return ;
            }
            let ghost prev = self.output@;
            let ghost prev_args = args@;
            let t = self.output.pop().unwrap();
            let is_marker = match &t {
                Token::PlaceHolder(b) => *b == FRAME_MARKER,
                _ => false,
            };
            proof {
                assert(prev =~= self.output@.push(t));
                let outv = tokens_view(prev);
                assert(outv.len() > 0);
                assert(outv.last() == t@);
                assert(outv.drop_last() =~= tokens_view(self.output@));
            }
            if is_marker {
                proof {
                    assert(tokens_view(prev).last() == TokenV::Marker(FRAME_MARKER));
                    assert(spec_pop_args(tokens_view(prev), tokens_view(prev_args)) == Some(
                        (tokens_view(self.output@), tokens_view(args@)),
                    ));
                }
                break ;
            }
            proof {
                assert(t@ != TokenV::Marker(FRAME_MARKER));
            }
            args.push(t);
            proof {
                assert(args@ =~= prev_args.push(t));
                assert(tokens_view(args@) =~= tokens_view(prev_args).push(t@));
                assert(spec_pop_args(tokens_view(prev), tokens_view(prev_args))
                    == spec_pop_args(tokens_view(self.output@), tokens_view(args@)));
            }
        }
        // the marker is popped; the run above it, reversed, is attached
        let rest_len = self.output.len();
        if rest_len > 0 {
            let ghost prev = self.output@;
            let t = self.output.pop().unwrap();
            proof {
                assert(prev =~= self.output@.push(t));
                let outv = tokens_view(prev);
                assert(outv.last() == t@);
                assert(outv.drop_last() =~= tokens_view(self.output@));
            }
            match t {
                Token::Command(mut c) => {
                    let reversed = reverse_tokens(args);
                    c.arguments = reversed;
                    proof {
                        lemma_args_view_is_pointwise(c.arguments@);
                    }
                    self.output.push(Token::Command(c));
                    proof {
                        assert(final(self)@.output =~= spec_close(old(self)@).output);
                    }
                },
                other => {
                    self.output.push(other);
                    self.error = Some(
                        ParseError {
                            line: self.line,
                            column: self.column,
                            kind: ParseErrorKind::BadNesting,
                        },
                    );
                    proof {
                        assert(final(self)@.output =~= spec_close(old(self)@).output);
                    }
                },
            }
        } else {
            self.error = Some(
                ParseError {
                    line: self.line,
                    column: self.column,
                    kind: ParseErrorKind::BadNesting,
                },
            );
        }
    }

    /// One character read inside a string literal.
    fn collect_string(&mut self, character: char)
        ensures
            final(self)@ == spec_step_string(old(self)@, character),
    {
        if character == '"' {
            let escaped = self.temp.len() > 0 && self.temp[self.temp.len() - 1] == '\\';
            if !escaped {
                self.state = ParserState::Token;
                let s = chars_to_string(&self.temp);
                self.temp = Vec::new();
                self.output.push(Token::String(s));
                proof {
                    assert(final(self)@.output =~= spec_step_string(old(self)@, character).output);
                }
            }
        } else if character == 'n' {
            if self.temp.len() > 0 && self.temp[self.temp.len() - 1] == '\\' {
                let _ = self.temp.pop();
                self.temp.push('\n');
                proof {
                    assert(final(self)@.temp =~= spec_step_string(old(self)@, character).temp);
                }
            } else {
                self.temp.push('n');
            }
        } else if character == '\n' {
            self.line = bump(self.line);
            self.column = 0;
            self.state = ParserState::Token;
            let s = chars_to_string(&self.temp);
            self.temp = Vec::new();
            self.output.push(Token::String(s));
            proof {
                assert(final(self)@.output =~= spec_step_string(old(self)@, character).output);
            }
        } else {
            self.temp.push(character);
        }
    }

    /// One character read inside a comment.
    fn collect_comment(&mut self, character: char)
        ensures
            final(self)@ == spec_step_comment(old(self)@, character),
    {
        if character == '\n' {
            self.line = bump(self.line);
            self.column = 0;
            self.state = ParserState::Token;
        }
    }

    /// One character read, in whatever state the parser is in.
    fn collect(&mut self, character: char)
        ensures
            final(self)@ == spec_step(old(self)@, character),
    {
        match self.state {
            ParserState::Token => self.collect_token(character),
            ParserState::String => self.collect_string(character),
            ParserState::Comment => self.collect_comment(character),
        }
    }

    /// Everything that is not a command is dropped from the output.
    fn clear_garbage(&mut self)
        ensures
            final(self)@ == spec_clear_garbage(old(self)@),
    {
        let mut kept: Vec<Token> = Vec::new();
        let mut i: usize = 0;
        proof {
            assert(tokens_view(self.output@.subrange(0, 0)).filter(
                |t: TokenV| t matches TokenV::Command { .. },
            ) =~= tokens_view(kept@));
        }
        while i < self.output.len()
            invariant
                i <= self.output@.len(),
                tokens_view(self.output@.subrange(0, i as int)).filter(
                    |t: TokenV| t matches TokenV::Command { .. },
                ) == tokens_view(kept@),
            decreases self.output@.len() - i,
        {
            let keep = match &self.output[i] {
                Token::Command(_) => true,
                _ => false,
            };
            proof {
                let pre = tokens_view(self.output@.subrange(0, i as int));
                let cur = tokens_view(self.output@.subrange(0, i + 1));
                assert(cur.drop_last() =~= pre);
                assert(cur =~= pre.push(self.output@[i as int]@));
            }
            if keep {
                let t = copy_token(&self.output[i]);
                kept.push(t);
                proof {
                    let pre = tokens_view(self.output@.subrange(0, i as int));
                    let cur = tokens_view(self.output@.subrange(0, i + 1));
                    seq_filter_push_lemma(pre, cur.last());
                    assert(tokens_view(kept@) =~= tokens_view(kept@.drop_last()).push(
                        self.output@[i as int]@,
                    ));
                }
            } else {
                proof {
                    let pre = tokens_view(self.output@.subrange(0, i as int));
                    let cur = tokens_view(self.output@.subrange(0, i + 1));
                    seq_filter_push_lemma(pre, cur.last());
                }
            }
            i = i + 1;
        }
        proof {
            assert(self.output@.subrange(0, self.output@.len() as int) =~= self.output@);
        }
        self.output = kept;
    }

    /// The whole source read in order; on a fatal syntax error the parser
    /// stops at once, otherwise stray non-command output is discarded.
    pub fn parse(&mut self)
        ensures
            final(self)@ == spec_parse(old(self)@),
    {
        let n = self.source.len();
        let mut i: usize = 0;
        proof {
            assert(self@.source.subrange(0, n as int) =~= self@.source);
        }
        while i < n && self.error.is_none()
            invariant
                n == self@.source.len(),
                i <= n,
                self@.source == old(self)@.source,
                spec_run(old(self)@, old(self)@.source) == spec_run(
                    self@,
                    self@.source.subrange(i as int, n as int),
                ),
            decreases n - i,
        {
            let c = self.source[i];
            let ghost pre = self@;
            let ghost rest = self@.source.subrange(i as int, n as int);
            self.collect_chr(c);
            proof {
                assert(rest[0] == c);
                assert(rest.drop_first() =~= pre.source.subrange(i + 1, n as int));
                assert(spec_run(pre, rest) == spec_run(self@, rest.drop_first()));
            }
            i = i + 1;
        }
        proof {
            if self.error is None {
                assert(self@.source.subrange(i as int, n as int) =~= Seq::<char>::empty());
            }
            assert(spec_run(self@, self@.source.subrange(i as int, n as int)) == self@);
        }
        if self.error.is_none() {
            self.clear_garbage();
        }
    }

    /// One character read; the source field is untouched.
    fn collect_chr(&mut self, character: char)
        ensures
            final(self)@ == spec_step(old(self)@, character),
            final(self)@.source == old(self)@.source,
    {
        proof {
            spec_step_keeps_source(old(self)@, character);
        }
        self.collect(character);
    }
}

/// A character step never changes the stored source text.
proof fn spec_step_keeps_source(p: ParserV, c: char)
    ensures
        spec_step(p, c).source == p.source,
{
}

/// Filtering a sequence extended by one element keeps or drops that element.
proof fn seq_filter_push_lemma(s: Seq<TokenV>, x: TokenV)
    ensures
        (x matches TokenV::Command { .. }) ==> s.push(x).filter(
            |t: TokenV| t matches TokenV::Command { .. },
        ) == s.filter(|t: TokenV| t matches TokenV::Command { .. }).push(x),
        !(x matches TokenV::Command { .. }) ==> s.push(x).filter(
            |t: TokenV| t matches TokenV::Command { .. },
        ) == s.filter(|t: TokenV| t matches TokenV::Command { .. }),
{
    reveal_with_fuel(Seq::filter, 2);
    assert(s.push(x).drop_last() =~= s);
    assert(s.push(x).last() == x);
}

/// A deep copy of a token: the copy has the same mathematical value.
pub fn copy_token(t: &Token) -> (r: Token)
    ensures
        r@ == t@,
    decreases t,
{
    match t {
        Token::String(s) => Token::String(s.clone()),
        Token::PlaceHolder(b) => Token::PlaceHolder(*b),
        Token::Command(c) => {
            let mut copied: Vec<Token> = Vec::new();
            let n = c.arguments.len();
            let mut i: usize = 0;
            proof {
                assert(args_view(c.arguments@.subrange(0, 0)) =~= args_view(copied@));
            }
            while i < n
                invariant
                    i <= n,
                    t is Command,
                    *c == t->Command_0,
                    n == c.arguments@.len(),
                    forall|j: int| 0 <= j < i ==> copied@[j]@ == c.arguments@[j]@,
                    copied@.len() == i,
                decreases n - i,
            {
                proof {
                    assert(decreases_to!(t => t->Command_0.arguments@[i as int]));
                }
                let a = copy_token(&c.arguments[i]);
                copied.push(a);
                i = i + 1;
            }
            proof {
                lemma_args_view_is_pointwise(copied@);
                lemma_args_view_is_pointwise(c.arguments@);
                assert(tokens_view(copied@) =~= tokens_view(c.arguments@));
            }
            proof {
                assert(c.arguments@.subrange(0, n as int) =~= c.arguments@);
            }
            Token::Command(Command { name: c.name.clone(), arguments: copied })
        },
    }
}

/// A deep copy of each token of a vector.
pub fn copy_tokens(v: &Vec<Token>) -> (r: Vec<Token>)
    ensures
        tokens_view(r@) == tokens_view(v@),
        r@.len() == v@.len(),
{
    let mut out: Vec<Token> = Vec::new();
    let mut i: usize = 0;
    while i < v.len()
        invariant
            i <= v@.len(),
            out@.len() == i,
            forall|j: int| 0 <= j < i ==> out@[j]@ == v@[j]@,
        decreases v@.len() - i,
    {
        out.push(copy_token(&v[i]));
        i = i + 1;
    }
    proof {
        assert(tokens_view(out@) =~= tokens_view(v@));
    }
    out
}

/// The reversal of a token vector, element views reversed as well.
pub fn reverse_tokens(v: Vec<Token>) -> (r: Vec<Token>)
    ensures
        tokens_view(r@) == tokens_view(v@).reverse(),
{
    let mut out: Vec<Token> = Vec::new();
    let mut src = v;
    while src.len() > 0
        invariant
            out@.len() + src@.len() == v@.len(),
            forall|j: int| 0 <= j < src@.len() ==> src@[j]@ == v@[j]@,
            forall|j: int|
                0 <= j < out@.len() ==> out@[j]@ == v@[v@.len() - 1 - j]@,
        decreases src@.len(),
    {
        let t = src.pop().unwrap();
        out.push(t);
    }
    proof {
        assert(tokens_view(out@) =~= tokens_view(v@).reverse());
    }
    out
}

/// A character that may stand in a bare command name.
pub open spec fn plain_name_char(c: char) -> bool {
    !(c == '(' || c == ')' || c == '"' || c == '#' || c == '\\'
        || crate::strutil::is_space_char(c))
}

/// A character that may stand in a string literal without escapes.
pub open spec fn plain_text_char(c: char) -> bool {
    c != '"' && c != '\\' && c != '\n'
}

pub open spec fn plain_name(s: Seq<char>) -> bool {
    forall|i: int| 0 <= i < s.len() ==> plain_name_char(s[i])
}

pub open spec fn plain_text(s: Seq<char>) -> bool {
    forall|i: int| 0 <= i < s.len() ==> plain_text_char(s[i])
}

/// A token that source text can denote plainly: a command whose name holds
/// no structural character, with such arguments, or a string literal
/// needing no escapes.
pub open spec fn wf_token(t: TokenV) -> bool
    decreases t,
{
    match t {
        TokenV::Text(s) => plain_text(s),
        TokenV::Command { name, arguments } => plain_name(name) && wf_tokens(arguments),
        TokenV::Marker(_) => false,
    }
}

pub open spec fn wf_tokens(s: Seq<TokenV>) -> bool
    decreases s,
{
    s.len() == 0 || (wf_tokens(s.drop_last()) && wf_token(s.last()))
}

/// The nested call form of a token: `name(...)` for a command, a quoted
/// literal for a string.
pub open spec fn ser_token(t: TokenV) -> Seq<char>
    decreases t,
{
    match t {
        TokenV::Text(s) => seq!['"'] + s + seq!['"'],
        TokenV::Command { name, arguments } => name + seq!['('] + ser_args(arguments) + seq![')'],
        TokenV::Marker(_) => Seq::empty(),
    }
}

/// The serialized arguments, each preceded by a single space.
pub open spec fn ser_args(s: Seq<TokenV>) -> Seq<char>
    decreases s,
{
    if s.len() == 0 {
        Seq::empty()
    } else {
        ser_args(s.drop_last()) + seq![' '] + ser_token(s.last())
    }
}


/// A copy of the characters of `src` appended to `out`.
fn append_chars(out: &mut Vec<char>, src: &Vec<char>)
    ensures
        final(out)@ == old(out)@ + src@,
{
    let mut i: usize = 0;
    proof {
        assert(out@ =~= old(out)@ + src@.subrange(0, 0));
    }
    while i < src.len()
        invariant
            i <= src@.len(),
            out@ == old(out)@ + src@.subrange(0, i as int),
        decreases src@.len() - i,
    {
        out.push(src[i]);
        proof {
            assert(old(out)@ + src@.subrange(0, i + 1) =~= (old(out)@ + src@.subrange(
                0,
                i as int,
            )).push(src@[i as int]));
        }
        i = i + 1;
    }
    proof {
        assert(src@.subrange(0, src@.len() as int) =~= src@);
    }
}

/// The nested call form of a token, as characters.
pub fn serialize_token(t: &Token) -> (r: Vec<char>)
    ensures
        r@ == ser_token(t@),
    decreases t,
{
    match t {
        Token::String(s) => {
            let mut out: Vec<char> = Vec::new();
            out.push('"');
            let body = str_to_chars(s.as_str());
            append_chars(&mut out, &body);
            out.push('"');
            proof {
                assert(out@ =~= seq!['"'] + s@ + seq!['"']);
            }
            out
        },
        Token::PlaceHolder(_) => {
            let out: Vec<char> = Vec::new();
            proof {
                assert(out@ =~= Seq::<char>::empty());
            }
            out
        },
        Token::Command(c) => {
            let mut out = str_to_chars(c.name.as_str());
            out.push('(');
            let n = c.arguments.len();
            let mut i: usize = 0;
            proof {
                lemma_args_view_is_pointwise(c.arguments@);
                assert(args_view(c.arguments@.subrange(0, 0)) =~= Seq::<TokenV>::empty());
                assert(out@ =~= (c.name@ + seq!['(']) + ser_args(
                    args_view(c.arguments@.subrange(0, 0)),
                ));
            }
            while i < n
                invariant
                    i <= n,
                    t is Command,
                    *c == t->Command_0,
                    n == c.arguments@.len(),
                    out@ == (c.name@ + seq!['(']) + ser_args(
                        args_view(c.arguments@.subrange(0, i as int)),
                    ),
                decreases n - i,
            {
                proof {
                    assert(decreases_to!(t => t->Command_0.arguments@[i as int]));
                }
                out.push(' ');
                let ghost mid = out@;
                let piece = serialize_token(&c.arguments[i]);
                append_chars(&mut out, &piece);
                proof {
                    let pre = args_view(c.arguments@.subrange(0, i as int));
                    let cur = args_view(c.arguments@.subrange(0, i + 1));
                    assert(c.arguments@.subrange(0, i + 1).drop_last() =~= c.arguments@.subrange(
                        0,
                        i as int,
                    ));
                    assert(cur.drop_last() =~= pre);
                    assert(cur.last() == c.arguments@[i as int]@);
                    assert(ser_args(cur) == ser_args(pre) + seq![' '] + ser_token(
                        c.arguments@[i as int]@,
                    ));
                    assert(out@ =~= (c.name@ + seq!['(']) + ser_args(cur));
                }
                i = i + 1;
            }
            out.push(')');
            proof {
                assert(c.arguments@.subrange(0, n as int) =~= c.arguments@);
                assert(out@ =~= ser_token(t@));
            }
            out
        },
    }
}

/// A whole program rendered back to nested call form, each command
/// preceded by a single space.
pub fn serialize_program(tokens: &Vec<Token>) -> (r: String)
    ensures
        r@ == ser_args(tokens_view(tokens@)),
{
    let mut out: Vec<char> = Vec::new();
    let n = tokens.len();
    let mut i: usize = 0;
    proof {
        lemma_args_view_is_pointwise(tokens@);
        assert(args_view(tokens@.subrange(0, 0)) =~= Seq::<TokenV>::empty());
        assert(out@ =~= ser_args(args_view(tokens@.subrange(0, 0))));
    }
    while i < n
        invariant
            i <= n,
            n == tokens@.len(),
            out@ == ser_args(args_view(tokens@.subrange(0, i as int))),
        decreases n - i,
    {
        out.push(' ');
        let piece = serialize_token(&tokens[i]);
        append_chars(&mut out, &piece);
        proof {
            let pre = args_view(tokens@.subrange(0, i as int));
            let cur = args_view(tokens@.subrange(0, i + 1));
            assert(tokens@.subrange(0, i + 1).drop_last() =~= tokens@.subrange(0, i as int));
            assert(cur.drop_last() =~= pre);
            assert(cur.last() == tokens@[i as int]@);
            assert(ser_args(cur) == ser_args(pre) + seq![' '] + ser_token(tokens@[i as int]@));
            assert(out@ =~= ser_args(cur));
        }
        i = i + 1;
    }
    proof {
        assert(tokens@.subrange(0, n as int) =~= tokens@);
        lemma_args_view_is_pointwise(tokens@);
        assert(args_view(tokens@) == tokens_view(tokens@));
    }
    chars_to_string(&out)
}

} // verus!
