//! Errors carrying a source range, and the lexer over the input text.
//!
//! The lexer owns the input and a cursor tracking line, column and
//! absolute position, and produces one token at a time with one token
//! of lookahead. What it produces is pinned down by [`spec_lex`]: a
//! pure function from the input characters and a position to the next
//! token, its span, and the new position, or to a lexical error with
//! its message and span.

use vstd::prelude::*;

use crate::token::{Point, Range, Token, Type};

verus! {

/// An error with a message and, when it arose from a place in the
/// source text, the range of that place.
#[derive(Debug)]
pub struct Error {
    pub message: String,
    pub at: Option<Range>,
}

impl Error {
    /// An error pointing at a range of the source text.
    pub fn new(message: String, at: Range) -> (r: Self)
        ensures
            r.message == message,
            r.at == Some(at),
    {
        Self { message, at: Some(at) }
    }

    /// An error with no place in the source text, as the runtime
    /// raises.
    pub fn plain(message: String) -> (r: Self)
        ensures
            r.message == message,
            r.at is None,
    {
        Self { message, at: None }
    }

    /// Where in the source the error arose, if anywhere.
    pub fn at(&self) -> (r: Option<Range>)
        ensures
            r == self.at,
    {
        self.at
    }

    /// The error text.
    pub fn message(&self) -> (r: &String)
        ensures
            r == &self.message,
    {
        &self.message
    }

    /// The error written out for a person, pinned down by
    /// [`spec_render`]: with the source at hand and a range to point
    /// at, the offending line with a marker under the offending
    /// characters and the message beneath; otherwise the message
    /// alone. The host prints the result.
    pub fn render(&self, src: Option<&Input>) -> (r: String)
        requires
            src matches Some(i) ==> i.wf(),
        ensures
            r@ == spec_render(
                *self,
                match src {
                    Some(i) => Some(i.text()),
                    None => None,
                },
            ),
    {
        proof {
            reveal_strlit(" |");
            reveal_strlit("\n");
            reveal_strlit("[err]");
        }
        match (self.at, src) {
            (Some(at), Some(inp)) => {
                let line = at.start().line();
                let lstr = crate::node::dec_nat_text(line);
                let shown = match inp.line_text(line) {
                    Some(t) => t,
                    None => String::from_str("[err]"),
                };
                let pad = at.start().column();
                let width = if at.end().column() > at.start().column() {
                    at.end().column() - at.start().column()
                } else {
                    1
                };
                let gutter = spaces(lstr.as_str().unicode_len());
                let r = lstr.concat(" |").concat(shown.as_str()).concat("\n").concat(
                    gutter.as_str(),
                ).concat(" |").concat(spaces(pad).as_str()).concat(carets(width).as_str()).concat(
                    "\n",
                ).concat(gutter.as_str()).concat(" |").concat(spaces(pad).as_str()).concat(
                    self.message.as_str(),
                ).concat("\n");
                proof {
                    assert(r@ =~= spec_render(*self, Some(inp.text())));
                }
                r
            },
            _ => {
                let r = self.message.clone().concat("\n");
                proof {
                    assert(r@ =~= spec_render(
                        *self,
                        match src {
                            Some(i) => Some(i.text()),
                            None => None,
                        },
                    ));
                }
                r
            },
        }
    }
}

/// The text an error is written out as against a source text: the
/// 1-indexed line number and the line it names, a gutter-aligned
/// marker line pointing at the range's columns, and the message under
/// the markers. Without a source or a range, the message alone.
pub open spec fn spec_render(e: Error, src: Option<Seq<char>>) -> Seq<char> {
    match (e.at, src) {
        (Some(at), Some(s)) => {
            let line = at.start.line as int;
            let lstr = crate::node::spec_dec_nat(line);
            let shown = if 1 <= line && spec_has_line(s, line) {
                spec_line_text(s, line)
            } else {
                "[err]"@
            };
            let pad = at.start.column as int;
            let width = if at.end.column > at.start.column {
                at.end.column - at.start.column
            } else {
                1int
            };
            lstr + " |"@ + shown + "\n"@ + spec_spaces(lstr.len() as int) + " |"@ + spec_spaces(
                pad,
            ) + spec_carets(width) + "\n"@ + spec_spaces(lstr.len() as int) + " |"@ + spec_spaces(
                pad,
            ) + e.message@ + "\n"@
        },
        _ => e.message@ + "\n"@,
    }
}

/// A run of spaces.
pub open spec fn spec_spaces(n: int) -> Seq<char>
    decreases n,
{
    if n <= 0 {
        Seq::empty()
    } else {
        spec_spaces(n - 1) + seq![' ']
    }
}

/// A run of markers pointing up at the offending text; at least one.
pub open spec fn spec_carets(n: int) -> Seq<char>
    decreases n,
{
    if n <= 1 {
        seq!['^']
    } else {
        spec_carets(n - 1) + seq!['^']
    }
}

/// Build a run of spaces.
fn spaces(n: usize) -> (r: String)
    ensures
        r@ == spec_spaces(n as int),
{
    let mut out = String::new();
    let mut i: usize = 0;
    proof {
        reveal_strlit(" ");
    }
    while i < n
        invariant
            i <= n,
            out@ == spec_spaces(i as int),
        decreases n - i,
    {
        out = out.concat(" ");
        proof {
            reveal_strlit(" ");
            assert(out@ =~= spec_spaces(i as int + 1));
        }
        i = i + 1;
    }
    out
}

/// Build a run of markers; at least one.
fn carets(n: usize) -> (r: String)
    ensures
        r@ == spec_carets(n as int),
{
    proof {
        reveal_strlit("^");
    }
    let mut out = String::from_str("^");
    proof {
        assert(out@ =~= spec_carets(1));
    }
    let mut i: usize = 1;
    while i < n
        invariant
            1 <= i,
            n >= 1 ==> i <= n,
            n <= 1 ==> i == 1,
            out@ == spec_carets(i as int),
        decreases n - i,
    {
        out = out.concat("^");
        proof {
            reveal_strlit("^");
            assert(out@ =~= spec_carets(i as int + 1));
        }
        i = i + 1;
    }
    proof {
        if n <= 1 {
            assert(spec_carets(n as int) =~= spec_carets(1));
        }
    }
    out
}

/// Whitespace, as the lexer skips it.
pub open spec fn is_ws(c: char) -> bool {
    c == ' ' || c == '\n' || c == '\t' || c == '\r'
}

/// A decimal digit.
pub open spec fn is_dec(c: char) -> bool {
    48 <= c as u32 && c as u32 <= 57
}

/// A hexadecimal digit, either case.
pub open spec fn is_hex(c: char) -> bool {
    is_dec(c) || (97 <= c as u32 && c as u32 <= 102) || (65 <= c as u32 && c as u32 <= 70)
}

/// A binary digit.
pub open spec fn is_bin(c: char) -> bool {
    c == '0' || c == '1'
}

/// A letter.
pub open spec fn is_alpha(c: char) -> bool {
    (97 <= c as u32 && c as u32 <= 122) || (65 <= c as u32 && c as u32 <= 90)
}

/// A letter or a decimal digit.
pub open spec fn is_alnum(c: char) -> bool {
    is_dec(c) || is_alpha(c)
}

/// The character classes the lexer scans runs of.
#[derive(Clone, Copy, PartialEq, Eq, Structural, Debug)]
pub enum Matcher {
    Whitespace,
    Dec,
    Hex,
    Bin,
    NotQuote,
    NotNewline,
    Alnum,
}

/// Whether a character belongs to a class.
pub open spec fn char_matches(c: char, m: Matcher) -> bool {
    match m {
        Matcher::Whitespace => is_ws(c),
        Matcher::Dec => is_dec(c),
        Matcher::Hex => is_hex(c),
        Matcher::Bin => is_bin(c),
        Matcher::NotQuote => c != '"',
        Matcher::NotNewline => c != '\n',
        Matcher::Alnum => is_alnum(c),
    }
}

/// Test a character against a class.
fn matches_char(c: char, m: Matcher) -> (r: bool)
    ensures
        r == char_matches(c, m),
{
    match m {
        Matcher::Whitespace => c == ' ' || c == '\n' || c == '\t' || c == '\r',
        Matcher::Dec => '0' <= c && c <= '9',
        Matcher::Hex => ('0' <= c && c <= '9') || ('a' <= c && c <= 'f') || ('A' <= c && c
            <= 'F'),
        Matcher::Bin => c == '0' || c == '1',
        Matcher::NotQuote => c != '"',
        Matcher::NotNewline => c != '\n',
        Matcher::Alnum => ('0' <= c && c <= '9') || ('a' <= c && c <= 'z') || ('A' <= c && c
            <= 'Z'),
    }
}

/// Where the run of class `m` starting at `pos` ends: the first
/// position at or after `pos` holding no such character, or the end
/// of the input.
pub open spec fn scan_end(s: Seq<char>, pos: int, m: Matcher) -> int
    decreases s.len() - pos,
{
    if pos < 0 || pos >= s.len() {
        pos
    } else if char_matches(s[pos], m) {
        scan_end(s, pos + 1, m)
    } else {
        pos
    }
}

/// A scan moves forward and stays within the input.
pub proof fn lemma_scan_end_bounds(s: Seq<char>, pos: int, m: Matcher)
    requires
        0 <= pos <= s.len(),
    ensures
        pos <= scan_end(s, pos, m) <= s.len(),
    decreases s.len() - pos,
{
    if pos < s.len() && char_matches(s[pos], m) {
        lemma_scan_end_bounds(s, pos + 1, m);
    }
}

/// A scan over a run known in advance ends exactly where the run
/// does.
pub proof fn lemma_scan_exact(s: Seq<char>, p: int, e: int, m: Matcher)
    requires
        0 <= p <= e <= s.len(),
        forall|j: int| p <= j < e ==> char_matches(#[trigger] s[j], m),
        e == s.len() || !char_matches(s[e], m),
    ensures
        scan_end(s, p, m) == e,
    decreases e - p,
{
    if p < e {
        lemma_scan_exact(s, p + 1, e, m);
    }
}

/// Every character a scan passes over belongs to its class.
pub proof fn lemma_scan_end_chars(s: Seq<char>, pos: int, m: Matcher)
    requires
        0 <= pos <= s.len(),
    ensures
        forall|j: int| pos <= j < scan_end(s, pos, m) ==> char_matches(#[trigger] s[j], m),
    decreases s.len() - pos,
{
    if pos < s.len() && char_matches(s[pos], m) {
        lemma_scan_end_chars(s, pos + 1, m);
    }
}

/// The value of a hexadecimal digit.
pub open spec fn hex_v(c: char) -> u8 {
    if is_dec(c) {
        (c as u32 - 48) as u8
    } else if 97 <= c as u32 && c as u32 <= 102 {
        (c as u32 - 87) as u8
    } else {
        (c as u32 - 55) as u8
    }
}

/// The value of a run of decimal digits.
pub open spec fn dec_v(s: Seq<char>) -> int
    decreases s.len(),
{
    if s.len() == 0 {
        0
    } else {
        dec_v(s.drop_last()) * 10 + (s.last() as u32 - 48)
    }
}

/// The value of exactly eight binary digits, most significant first.
pub open spec fn bin8(s: Seq<char>) -> int {
    128 * (s[0] as u32 - 48) + 64 * (s[1] as u32 - 48) + 32 * (s[2] as u32 - 48) + 16 * (
    s[3] as u32 - 48) + 8 * (s[4] as u32 - 48) + 4 * (s[5] as u32 - 48) + 2 * (s[6] as u32 - 48)
        + (s[7] as u32 - 48)
}

/// A token as the specification sees it: the kind with string
/// payloads as character sequences.
pub ghost enum SpecTok {
    Symbol(Seq<char>),
    Register(u8),
    Decimal(u8),
    Hexadecimal(u8),
    Binary(u8),
    Text(Seq<char>),
    Comment(Seq<char>),
    Comma,
    Minus,
    Add,
    Underscore,
    Colon,
    Gt,
    Apostrophy,
    Slash,
    Question,
    Exclame,
    Dot,
    Eof,
}

/// Whether an executable token kind carries the specification
/// token's content.
pub open spec fn token_matches(d: Type, st: SpecTok) -> bool {
    match (d, st) {
        (Type::Symbol(a), SpecTok::Symbol(b)) => a@ == b,
        (Type::Register(a), SpecTok::Register(b)) => a == b,
        (Type::Decimal(a), SpecTok::Decimal(b)) => a == b,
        (Type::Hexadecimal(a), SpecTok::Hexadecimal(b)) => a == b,
        (Type::Binary(a), SpecTok::Binary(b)) => a == b,
        (Type::Text(a), SpecTok::Text(b)) => a@ == b,
        (Type::Comment(a), SpecTok::Comment(b)) => a@ == b,
        (Type::Comma, SpecTok::Comma) => true,
        (Type::Minus, SpecTok::Minus) => true,
        (Type::Add, SpecTok::Add) => true,
        (Type::Underscore, SpecTok::Underscore) => true,
        (Type::Colon, SpecTok::Colon) => true,
        (Type::Gt, SpecTok::Gt) => true,
        (Type::Apostrophy, SpecTok::Apostrophy) => true,
        (Type::Slash, SpecTok::Slash) => true,
        (Type::Question, SpecTok::Question) => true,
        (Type::Exclame, SpecTok::Exclame) => true,
        (Type::Dot, SpecTok::Dot) => true,
        (Type::Eof, SpecTok::Eof) => true,
        _ => false,
    }
}

/// What one lexing step produces: a token spanning `[start, end)`
/// with the cursor left at `end`, or an error with its message and
/// span.
pub ghost enum LexResult {
    Tok(SpecTok, int, int),
    Fail(Seq<char>, int, int),
}

/// The token beginning with `r` at `start`: `r` followed by a digit
/// names a register, `r0` to `r3`; any other digit is an error; and
/// without a digit the word is an ordinary symbol.
pub open spec fn spec_lex_register(s: Seq<char>, start: int) -> LexResult {
    if start + 1 < s.len() && is_dec(s[start + 1]) {
        let c2 = s[start + 1];
        if c2 == '0' {
            LexResult::Tok(SpecTok::Register(0), start, start + 2)
        } else if c2 == '1' {
            LexResult::Tok(SpecTok::Register(1), start, start + 2)
        } else if c2 == '2' {
            LexResult::Tok(SpecTok::Register(2), start, start + 2)
        } else if c2 == '3' {
            LexResult::Tok(SpecTok::Register(3), start, start + 2)
        } else {
            LexResult::Fail(
                "Invalid register r"@ + s.subrange(start + 1, start + 2),
                start,
                start + 2,
            )
        }
    } else {
        let e = scan_end(s, start, Matcher::Alnum);
        LexResult::Tok(SpecTok::Symbol(s.subrange(start, e)), start, e)
    }
}

/// The token beginning with `0` at `start`: a hexadecimal literal of
/// exactly two digits after `0x`, a binary literal of exactly eight
/// digits after `0b`, or a decimal literal.
pub open spec fn spec_lex_zero(s: Seq<char>, start: int) -> LexResult {
    if start + 1 >= s.len() {
        LexResult::Fail("Unexpected end of file"@, start, start + 1)
    } else if s[start + 1] == 'x' {
        let e = scan_end(s, start + 2, Matcher::Hex);
        if e - start - 2 == 2 {
            LexResult::Tok(
                SpecTok::Hexadecimal((hex_v(s[start + 2]) * 16 + hex_v(s[start + 3])) as u8),
                start,
                e,
            )
        } else {
            LexResult::Fail("Expected 2 hexadecimal digits"@, start, e)
        }
    } else if s[start + 1] == 'b' {
        let e = scan_end(s, start + 2, Matcher::Bin);
        if e - start - 2 == 8 {
            LexResult::Tok(SpecTok::Binary(bin8(s.subrange(start + 2, e)) as u8), start, e)
        } else {
            LexResult::Fail("Expected 8 binary digits"@, start, e)
        }
    } else {
        let e = scan_end(s, start + 1, Matcher::Dec);
        let run = s.subrange(start, e);
        if dec_v(run) > 255 {
            LexResult::Fail("Expected number in range 0-255, got "@ + run, start, e)
        } else {
            LexResult::Tok(SpecTok::Decimal(dec_v(run) as u8), start, e)
        }
    }
}

/// The next token of the input from position `pos`: skip whitespace,
/// then dispatch on the first character.
pub open spec fn spec_lex(s: Seq<char>, pos: int) -> LexResult {
    let start = scan_end(s, pos, Matcher::Whitespace);
    if start >= s.len() {
        LexResult::Tok(SpecTok::Eof, start, start)
    } else {
        let c = s[start];
        if c == 'r' {
            spec_lex_register(s, start)
        } else if c == '0' {
            spec_lex_zero(s, start)
        } else if c == ',' {
            LexResult::Tok(SpecTok::Comma, start, start + 1)
        } else if c == '-' {
            LexResult::Tok(SpecTok::Minus, start, start + 1)
        } else if c == '+' {
            LexResult::Tok(SpecTok::Add, start, start + 1)
        } else if c == ':' {
            LexResult::Tok(SpecTok::Colon, start, start + 1)
        } else if c == '_' {
            LexResult::Tok(SpecTok::Underscore, start, start + 1)
        } else if c == '>' {
            LexResult::Tok(SpecTok::Gt, start, start + 1)
        } else if c == '\'' {
            LexResult::Tok(SpecTok::Apostrophy, start, start + 1)
        } else if c == '/' {
            LexResult::Tok(SpecTok::Slash, start, start + 1)
        } else if c == '?' {
            LexResult::Tok(SpecTok::Question, start, start + 1)
        } else if c == '!' {
            LexResult::Tok(SpecTok::Exclame, start, start + 1)
        } else if c == '.' {
            LexResult::Tok(SpecTok::Dot, start, start + 1)
        } else if c == '"' {
            let e = scan_end(s, start + 1, Matcher::NotQuote);
            let after = if e < s.len() {
                e + 1
            } else {
                e
            };
            LexResult::Tok(SpecTok::Text(s.subrange(start + 1, e)), start, after)
        } else if c == '#' {
            let e = scan_end(s, start + 1, Matcher::NotNewline);
            let after = if e < s.len() {
                e + 1
            } else {
                e
            };
            LexResult::Tok(SpecTok::Comment(s.subrange(start + 1, e)), start, after)
        } else if is_dec(c) {
            let e = scan_end(s, start, Matcher::Dec);
            let run = s.subrange(start, e);
            if dec_v(run) > 255 {
                LexResult::Fail("Expected number in range 0-255, got "@ + run, start, e)
            } else {
                LexResult::Tok(SpecTok::Decimal(dec_v(run) as u8), start, e)
            }
        } else if is_alpha(c) {
            let e = scan_end(s, start, Matcher::Alnum);
            LexResult::Tok(SpecTok::Symbol(s.subrange(start, e)), start, e)
        } else {
            LexResult::Fail("Unknown "@ + s.subrange(start, start + 1), start, start + 1)
        }
    }
}

/// The 1-indexed line a position lies on: one more than the newlines
/// before it.
pub open spec fn line_of(s: Seq<char>, pos: int) -> int
    decreases pos,
{
    if pos <= 0 {
        1
    } else {
        line_of(s, pos - 1) + if s[pos - 1] == '\n' {
            1int
        } else {
            0int
        }
    }
}

/// The 0-indexed column of a position: the characters since the last
/// newline.
pub open spec fn col_of(s: Seq<char>, pos: int) -> int
    decreases pos,
{
    if pos <= 0 {
        0
    } else if s[pos - 1] == '\n' {
        0
    } else {
        col_of(s, pos - 1) + 1
    }
}

/// Lines and columns stay within the position they describe.
pub proof fn lemma_line_col_bounds(s: Seq<char>, pos: int)
    requires
        0 <= pos,
    ensures
        1 <= line_of(s, pos) <= pos + 1,
        0 <= col_of(s, pos) <= pos,
    decreases pos,
{
    if pos > 0 {
        lemma_line_col_bounds(s, pos - 1);
    }
}

/// The source point at a position: its line and column. A line
/// number beyond what a machine word can count saturates; no real
/// text reaches it.
pub open spec fn point_at(s: Seq<char>, pos: int) -> Point {
    Point {
        line: if line_of(s, pos) > usize::MAX {
            usize::MAX
        } else {
            line_of(s, pos) as usize
        },
        column: col_of(s, pos) as usize,
    }
}

/// The source range between two positions.
pub open spec fn range_at(s: Seq<char>, start: int, end: int) -> Range {
    Range { start: point_at(s, start), end: point_at(s, end) }
}

/// Where the 1-indexed line begins: just past the newline ending the
/// line before, or the end of the input when there is no such line.
pub open spec fn spec_line_start(s: Seq<char>, l: int) -> int
    decreases l,
{
    if l <= 1 {
        0
    } else {
        let e = scan_end(s, spec_line_start(s, l - 1), Matcher::NotNewline);
        if e < s.len() {
            e + 1
        } else {
            s.len() as int
        }
    }
}

/// Whether the input has a 1-indexed line `l`: every line before it
/// ends with a newline.
pub open spec fn spec_has_line(s: Seq<char>, l: int) -> bool
    decreases l,
{
    if l <= 1 {
        true
    } else {
        spec_has_line(s, l - 1) && scan_end(s, spec_line_start(s, l - 1), Matcher::NotNewline)
            < s.len()
    }
}

/// The contents of the 1-indexed line `l`, up to its newline.
pub open spec fn spec_line_text(s: Seq<char>, l: int) -> Seq<char> {
    s.subrange(spec_line_start(s, l), scan_end(s, spec_line_start(s, l), Matcher::NotNewline))
}

/// A line that exists has all the lines before it.
proof fn lemma_has_line_mono(s: Seq<char>, l1: int, l2: int)
    requires
        1 <= l1 <= l2,
        spec_has_line(s, l2),
    ensures
        spec_has_line(s, l1),
    decreases l2,
{
    if l1 < l2 {
        lemma_has_line_mono(s, l1, l2 - 1);
    }
}

/// Line starts lie within the input.
proof fn lemma_line_start_bounds(s: Seq<char>, l: int)
    requires
        l >= 1,
    ensures
        0 <= spec_line_start(s, l) <= s.len(),
    decreases l,
{
    if l > 1 {
        lemma_line_start_bounds(s, l - 1);
        lemma_scan_end_bounds(s, spec_line_start(s, l - 1), Matcher::NotNewline);
    }
}

/// The lexer: the input text, the cursor, and one token of lookahead.
pub struct Input {
    input: String,
    length: usize,
    line: usize,
    col: usize,
    pos: usize,
    current: Option<Token>,
    tok_pos: Ghost<int>,
}

impl Input {
    /// The input text, for use in specifications.
    pub closed spec fn text(self) -> Seq<char> {
        self.input@
    }

    /// The cursor position, for use in specifications.
    pub closed spec fn position(self) -> int {
        self.pos as int
    }

    /// The cached lookahead token, for use in specifications.
    pub closed spec fn cached(self) -> Option<Token> {
        self.current
    }

    /// The position the next token will be lexed from: where the
    /// cached token was read, or the cursor.
    pub open spec fn peek_pos(self) -> int {
        if self.cached() is Some {
            self.tok_pos_spec()
        } else {
            self.position()
        }
    }

    /// The position the cached token was read from.
    pub closed spec fn tok_pos_spec(self) -> int {
        self.tok_pos@
    }

    /// The cursor is inside the input, the line and column describe
    /// it, and any cached token is what lexing from its recorded
    /// position produces, leaving the cursor where it is.
    pub closed spec fn wf(self) -> bool {
        &&& self.pos <= self.input@.len()
        &&& self.length == self.input@.len()
        &&& self.line == point_at(self.input@, self.pos as int).line
        &&& self.col as int == col_of(self.input@, self.pos as int)
        &&& match self.current {
            Some(t) => {
                &&& (spec_lex(self.input@, self.tok_pos@) matches LexResult::Tok(st, start, end)
                    && token_matches(t.data, st) && t.range == range_at(self.input@, start, end)
                    && end == self.pos as int)
                &&& 0 <= self.tok_pos@ <= self.pos as int
            },
            None => true,
        }
    }

    /// The input text.
    pub fn source(&self) -> (r: &String)
        ensures
            r@ == self.text(),
    {
        &self.input
    }

    /// The position the next token starts from lies within the input.
    pub proof fn lemma_peek_pos_bounds(self)
        requires
            self.wf(),
        ensures
            0 <= self.peek_pos() <= self.text().len(),
    {
    }

    /// The character under the cursor, if any.
    fn peek_char(&self) -> (r: Option<char>)
        requires
            self.wf(),
        ensures
            r == if self.position() < self.text().len() {
                Some(self.text()[self.position()])
            } else {
                Option::<char>::None
            },
    {
        if self.pos < self.length {
            Some(self.input.as_str().get_char(self.pos))
        } else {
            None
        }
    }

    /// Advance the cursor one character, rolling the line over on a
    /// newline. At the end of the input nothing happens.
    fn forward(&mut self)
        requires
            old(self).wf(),
            old(self).cached() is None,
        ensures
            final(self).wf(),
            final(self).text() == old(self).text(),
            final(self).cached() == old(self).cached(),
            final(self).tok_pos_spec() == old(self).tok_pos_spec(),
            final(self).position() == if old(self).position() < old(self).text().len() {
                old(self).position() + 1
            } else {
                old(self).position()
            },
    {
        proof {
            lemma_line_col_bounds(self.input@, self.pos as int);
            lemma_line_col_bounds(self.input@, self.pos + 1);
        }
        if self.pos < self.length {
            let ch = self.input.as_str().get_char(self.pos);
            self.pos = self.pos + 1;
            if ch == '\n' {
                if self.line < usize::MAX {
                    self.line = self.line + 1;
                }
                self.col = 0;
            } else {
                self.col = self.col + 1;
            }
        }
    }

    /// The point the cursor is at.
    fn here(&self) -> (r: Point)
        requires
            self.wf(),
        ensures
            r == point_at(self.text(), self.position()),
    {
        Point::new(self.line, self.col)
    }

    /// Skip the run of class `m` under the cursor.
    fn skip_matching(&mut self, m: Matcher)
        requires
            old(self).wf(),
            old(self).cached() is None,
        ensures
            final(self).wf(),
            final(self).text() == old(self).text(),
            final(self).cached() == old(self).cached(),
            final(self).tok_pos_spec() == old(self).tok_pos_spec(),
            final(self).position() == scan_end(old(self).text(), old(self).position(), m),
    {
        loop
            invariant_except_break
                self.wf(),
                self.cached() is None,
                self.text() == old(self).text(),
                self.cached() == old(self).cached(),
                self.tok_pos_spec() == old(self).tok_pos_spec(),
                scan_end(self.text(), self.position(), m) == scan_end(
                    old(self).text(),
                    old(self).position(),
                    m,
                ),
            ensures
                self.wf(),
                self.text() == old(self).text(),
                self.cached() == old(self).cached(),
                self.tok_pos_spec() == old(self).tok_pos_spec(),
                self.position() == scan_end(old(self).text(), old(self).position(), m),
            decreases self.text().len() - self.position(),
        {
            match self.peek_char() {
                Some(c) => {
                    if matches_char(c, m) {
                        self.forward();
                    } else {
                        proof {
                            assert(scan_end(self.text(), self.position(), m) == self.position());
                        }
                        break ;
                    }
                },
                None => {
                    proof {
                        assert(scan_end(self.text(), self.position(), m) == self.position());
                    }
                    break ;
                },
            }
        }
    }

    /// Where a run of class `m` ends, without moving the cursor.
    fn scan_from(&self, p: usize, m: Matcher) -> (e: usize)
        requires
            self.wf(),
            p <= self.text().len(),
        ensures
            e == scan_end(self.text(), p as int, m),
            p <= e <= self.text().len(),
    {
        let mut i: usize = p;
        loop
            invariant_except_break
                self.wf(),
                p <= i <= self.text().len(),
                scan_end(self.text(), p as int, m) == scan_end(self.text(), i as int, m),
            ensures
                p <= i <= self.text().len(),
                i == scan_end(self.text(), p as int, m),
            decreases self.text().len() - i,
        {
            if i < self.length {
                let c = self.input.as_str().get_char(i);
                if matches_char(c, m) {
                    i = i + 1;
                } else {
                    break ;
                }
            } else {
                break ;
            }
        }
        i
    }

    /// The text of the 1-indexed line, when the input has that many
    /// lines.
    pub fn line_text(&self, line: usize) -> (r: Option<String>)
        requires
            self.wf(),
        ensures
            1 <= line && spec_has_line(self.text(), line as int) ==> (r matches Some(t) && t@
                == spec_line_text(self.text(), line as int)),
            !(1 <= line && spec_has_line(self.text(), line as int)) ==> r is None,
    {
        if line == 0 {
            return None;
        }
        let mut p: usize = 0;
        let mut k: usize = 1;
        while k < line
            invariant
                self.wf(),
                1 <= k <= line,
                p == spec_line_start(self.text(), k as int),
                p <= self.text().len(),
                spec_has_line(self.text(), k as int),
            decreases line - k,
        {
            let e = self.scan_from(p, Matcher::NotNewline);
            if e >= self.length {
                proof {
                    if spec_has_line(self.text(), line as int) {
                        lemma_has_line_mono(self.text(), k as int + 1, line as int);
                    }
                }
                return None;
            }
            p = e + 1;
            k = k + 1;
        }
        let e = self.scan_from(p, Matcher::NotNewline);
        Some(self.slice(p, e))
    }

    /// The text between two cursor positions.
    fn slice(&self, from: usize, to: usize) -> (r: String)
        requires
            self.wf(),
            from <= to <= self.text().len(),
        ensures
            r@ == self.text().subrange(from as int, to as int),
    {
        self.input.as_str().substring_char(from, to).to_owned()
    }

    /// The value of the digit at a position.
    fn digit_at(&self, i: usize) -> (d: u32)
        requires
            self.wf(),
            i < self.text().len(),
            is_dec(self.text()[i as int]) || is_hex(self.text()[i as int]) || is_bin(
                self.text()[i as int],
            ),
        ensures
            d == hex_v(self.text()[i as int]),
    {
        let c = self.input.as_str().get_char(i);
        let u = c as u32;
        if u <= 57 {
            u - 48
        } else if u >= 97 {
            u - 87
        } else {
            u - 55
        }
    }

    /// The value of a run of decimal digits, capped just past the
    /// byte range: values over 255 all read back as over 255.
    fn dec_value_capped(&self, from: usize, to: usize) -> (v: u32)
        requires
            self.wf(),
            from <= to <= self.text().len(),
            forall|j: int| from <= j < to ==> is_dec(#[trigger] self.text()[j]),
        ensures
            dec_v(self.text().subrange(from as int, to as int)) <= 255 ==> v == dec_v(
                self.text().subrange(from as int, to as int),
            ),
            dec_v(self.text().subrange(from as int, to as int)) > 255 ==> v > 255,
    {
        let mut v: u32 = 0;
        let mut i: usize = from;
        proof {
            assert(self.text().subrange(from as int, from as int) =~= Seq::<char>::empty());
        }
        while i < to
            invariant
                from <= i <= to,
                self.wf(),
                to <= self.text().len(),
                forall|j: int| from <= j < to ==> is_dec(#[trigger] self.text()[j]),
                v <= 256,
                dec_v(self.text().subrange(from as int, i as int)) <= 255 ==> v == dec_v(
                    self.text().subrange(from as int, i as int),
                ),
                dec_v(self.text().subrange(from as int, i as int)) > 255 ==> v > 255,
            decreases to - i,
        {
            let d = self.digit_at(i);
            proof {
                assert(self.text().subrange(from as int, i as int + 1).drop_last()
                    =~= self.text().subrange(from as int, i as int));
                assert(self.text().subrange(from as int, i as int + 1).last()
                    == self.text()[i as int]);
            }
            v = v * 10 + d;
            if v > 255 {
                v = 256;
            }
            i = i + 1;
        }
        v
    }

    /// Read a single-character token.
    fn char_token(&mut self, start: Point, data: Type) -> (r: Token)
        requires
            old(self).wf(),
            old(self).cached() is None,
            old(self).position() < old(self).text().len(),
            start == point_at(old(self).text(), old(self).position()),
        ensures
            final(self).wf(),
            final(self).cached() is None,
            final(self).text() == old(self).text(),
            final(self).position() == old(self).position() + 1,
            r.data == data,
            r.range == range_at(old(self).text(), old(self).position(), old(self).position() + 1),
    {
        self.forward();
        Token::new(data, Range::new(start, self.here()))
    }

    /// Read a token beginning with `r`: a register when a digit
    /// follows, else a symbol.
    fn read_register(&mut self, start: Point) -> (r: Result<Token, Error>)
        requires
            old(self).wf(),
            old(self).cached() is None,
            old(self).position() < old(self).text().len(),
            old(self).text()[old(self).position()] == 'r',
            start == point_at(old(self).text(), old(self).position()),
        ensures
            final(self).wf(),
            final(self).cached() is None,
            final(self).text() == old(self).text(),
            match spec_lex_register(old(self).text(), old(self).position()) {
                LexResult::Tok(st, s0, end) => (r matches Ok(t) && token_matches(t.data, st)
                    && t.range == range_at(old(self).text(), s0, end)) && final(self).position()
                    == end,
                LexResult::Fail(msg, s0, end) => (r matches Err(e) && e.message@ == msg && e.at
                    == Some(range_at(old(self).text(), s0, end))) && final(self).position() == end,
            },
    {
        let ghost s = self.text();
        let has_digit = if self.pos + 1 < self.length {
            matches_char(self.input.as_str().get_char(self.pos + 1), Matcher::Dec)
        } else {
            false
        };
        if has_digit {
            self.forward();
            let reg = match self.peek_char() {
                Some(c) => c,
                None => { return Err(Error::plain(String::new())) },
            };
            self.forward();
            if reg == '0' {
                Ok(Token::new(Type::Register(0), Range::new(start, self.here())))
            } else if reg == '1' {
                Ok(Token::new(Type::Register(1), Range::new(start, self.here())))
            } else if reg == '2' {
                Ok(Token::new(Type::Register(2), Range::new(start, self.here())))
            } else if reg == '3' {
                Ok(Token::new(Type::Register(3), Range::new(start, self.here())))
            } else {
                let shown = self.slice(self.pos - 1, self.pos);
                Err(
                    Error::new(
                        String::from_str("Invalid register r").concat(shown.as_str()),
                        Range::new(start, self.here()),
                    ),
                )
            }
        } else {
            let sym_start = self.pos;
            self.skip_matching(Matcher::Alnum);
            let sym_end = self.pos;
            proof {
                lemma_scan_end_bounds(s, sym_start as int, Matcher::Alnum);
            }
            let text = self.slice(sym_start, sym_end);
            Ok(Token::new(Type::Symbol(text), Range::new(start, self.here())))
        }
    }

    /// Read a token beginning with `0`: a hexadecimal, binary or
    /// decimal literal.
    fn read_zero_prefix(&mut self, start: Point) -> (r: Result<Token, Error>)
        requires
            old(self).wf(),
            old(self).cached() is None,
            old(self).position() < old(self).text().len(),
            old(self).text()[old(self).position()] == '0',
            start == point_at(old(self).text(), old(self).position()),
        ensures
            final(self).wf(),
            final(self).cached() is None,
            final(self).text() == old(self).text(),
            match spec_lex_zero(old(self).text(), old(self).position()) {
                LexResult::Tok(st, s0, end) => (r matches Ok(t) && token_matches(t.data, st)
                    && t.range == range_at(old(self).text(), s0, end)) && final(self).position()
                    == end,
                LexResult::Fail(msg, s0, end) => (r matches Err(e) && e.message@ == msg && e.at
                    == Some(range_at(old(self).text(), s0, end))) && final(self).position() == end,
            },
    {
        let ghost s = self.text();
        let ghost start_pos = self.position();
        self.forward();
        match self.peek_char() {
            None => Err(
                Error::new(
                    String::from_str("Unexpected end of file"),
                    Range::new(start, self.here()),
                ),
            ),
            Some(c) => {
                if c == 'x' {
                    self.forward();
                    let run_start = self.pos;
                    self.skip_matching(Matcher::Hex);
                    let run_end = self.pos;
                    proof {
                        lemma_scan_end_chars(s, run_start as int, Matcher::Hex);
                        lemma_scan_end_bounds(s, run_start as int, Matcher::Hex);
                    }
                    if run_end - run_start == 2 {
                        let h1 = self.digit_at(run_start);
                        let h2 = self.digit_at(run_start + 1);
                        let byte = (h1 * 16 + h2) as u8;
                        Ok(Token::new(Type::Hexadecimal(byte), Range::new(start, self.here())))
                    } else {
                        Err(
                            Error::new(
                                String::from_str("Expected 2 hexadecimal digits"),
                                Range::new(start, self.here()),
                            ),
                        )
                    }
                } else if c == 'b' {
                    self.forward();
                    let run_start = self.pos;
                    self.skip_matching(Matcher::Bin);
                    let run_end = self.pos;
                    proof {
                        lemma_scan_end_chars(s, run_start as int, Matcher::Bin);
                        lemma_scan_end_bounds(s, run_start as int, Matcher::Bin);
                    }
                    if run_end - run_start == 8 {
                        let b0 = self.digit_at(run_start);
                        let b1 = self.digit_at(run_start + 1);
                        let b2 = self.digit_at(run_start + 2);
                        let b3 = self.digit_at(run_start + 3);
                        let b4 = self.digit_at(run_start + 4);
                        let b5 = self.digit_at(run_start + 5);
                        let b6 = self.digit_at(run_start + 6);
                        let b7 = self.digit_at(run_start + 7);
                        let byte = (128 * b0 + 64 * b1 + 32 * b2 + 16 * b3 + 8 * b4 + 4 * b5 + 2
                            * b6 + b7) as u8;
                        proof {
                            let run = s.subrange(run_start as int, run_end as int);
                            assert(run[0] == s[run_start as int] && run[1] == s[run_start as int
                                + 1] && run[2] == s[run_start as int + 2] && run[3]
                                == s[run_start as int + 3] && run[4] == s[run_start as int + 4]
                                && run[5] == s[run_start as int + 5] && run[6] == s[run_start as int
                                + 6] && run[7] == s[run_start as int + 7]);
                        }
                        Ok(Token::new(Type::Binary(byte), Range::new(start, self.here())))
                    } else {
                        Err(
                            Error::new(
                                String::from_str("Expected 8 binary digits"),
                                Range::new(start, self.here()),
                            ),
                        )
                    }
                } else {
                    let from = self.pos - 1;
                    self.skip_matching(Matcher::Dec);
                    let run_end = self.pos;
                    proof {
                        lemma_scan_end_chars(s, start_pos + 1, Matcher::Dec);
                        lemma_scan_end_bounds(s, start_pos + 1, Matcher::Dec);
                        assert(is_dec(s[start_pos]));
                    }
                    self.finish_decimal(start, from, run_end)
                }
            },
        }
    }

    /// Turn a completed run of decimal digits into a token, or fail
    /// when the value does not fit a byte. The run is
    /// `[run_start, run_end)` and the cursor stands at its end.
    fn finish_decimal(&mut self, start: Point, from: usize, run_end: usize) -> (r: Result<
        Token,
        Error,
    >)
        requires
            old(self).wf(),
            old(self).cached() is None,
            from <= run_end,
            run_end == old(self).position(),
            start == point_at(old(self).text(), from as int),
            forall|j: int| from <= j < run_end ==> is_dec(#[trigger] old(self).text()[j]),
        ensures
            *final(self) == *old(self),
            ({
                let s = old(self).text();
                let run = s.subrange(from as int, run_end as int);
                if dec_v(run) > 255 {
                    (r matches Err(e) && e.message@ == "Expected number in range 0-255, got "@
                        + run && e.at == Some(range_at(s, from as int, run_end as int)))
                } else {
                    (r matches Ok(t) && token_matches(t.data, SpecTok::Decimal(dec_v(run) as u8))
                        && t.range == range_at(s, from as int, run_end as int))
                }
            }),
    {
        let ghost s = self.text();
        let v = self.dec_value_capped(from, run_end);
        if v > 255 {
            let shown = self.slice(from, run_end);
            Err(
                Error::new(
                    String::from_str("Expected number in range 0-255, got ").concat(
                        shown.as_str(),
                    ),
                    Range::new(start, self.here()),
                ),
            )
        } else {
            Ok(Token::new(Type::Decimal(v as u8), Range::new(start, self.here())))
        }
    }

    /// Read the next token from the input: skip whitespace, then
    /// dispatch on the first character.
    #[verifier::rlimit(100)]
    fn read_next(&mut self) -> (r: Result<Token, Error>)
        requires
            old(self).wf(),
            old(self).cached() is None,
        ensures
            final(self).wf(),
            final(self).cached() is None,
            final(self).text() == old(self).text(),
            match spec_lex(old(self).text(), old(self).position()) {
                LexResult::Tok(st, s0, end) => (r matches Ok(t) && token_matches(t.data, st)
                    && t.range == range_at(old(self).text(), s0, end)) && final(self).position()
                    == end,
                LexResult::Fail(msg, s0, end) => (r matches Err(e) && e.message@ == msg && e.at
                    == Some(range_at(old(self).text(), s0, end))) && final(self).position() == end,
            },
    {
        let ghost s = self.text();
        self.skip_matching(Matcher::Whitespace);
        let start = self.here();
        let ghost start_pos = self.position();
        match self.peek_char() {
            None => Ok(Token::new(Type::Eof, Range::new(start, self.here()))),
            Some(ch) => {
                if ch == 'r' {
                    self.read_register(start)
                } else if ch == '0' {
                    self.read_zero_prefix(start)
                } else if ch == ',' {
                    Ok(self.char_token(start, Type::Comma))
                } else if ch == '-' {
                    Ok(self.char_token(start, Type::Minus))
                } else if ch == '+' {
                    Ok(self.char_token(start, Type::Add))
                } else if ch == ':' {
                    Ok(self.char_token(start, Type::Colon))
                } else if ch == '_' {
                    Ok(self.char_token(start, Type::Underscore))
                } else if ch == '>' {
                    Ok(self.char_token(start, Type::Gt))
                } else if ch == '\'' {
                    Ok(self.char_token(start, Type::Apostrophy))
                } else if ch == '/' {
                    Ok(self.char_token(start, Type::Slash))
                } else if ch == '?' {
                    Ok(self.char_token(start, Type::Question))
                } else if ch == '!' {
                    Ok(self.char_token(start, Type::Exclame))
                } else if ch == '.' {
                    Ok(self.char_token(start, Type::Dot))
                } else if ch == '"' {
                    self.forward();
                    let text_start = self.pos;
                    self.skip_matching(Matcher::NotQuote);
                    let text_end = self.pos;
                    proof {
                        lemma_scan_end_bounds(s, text_start as int, Matcher::NotQuote);
                    }
                    let text = self.slice(text_start, text_end);
                    self.forward();
                    Ok(Token::new(Type::Text(text), Range::new(start, self.here())))
                } else if ch == '#' {
                    self.forward();
                    let text_start = self.pos;
                    self.skip_matching(Matcher::NotNewline);
                    let text_end = self.pos;
                    proof {
                        lemma_scan_end_bounds(s, text_start as int, Matcher::NotNewline);
                    }
                    let text = self.slice(text_start, text_end);
                    self.forward();
                    Ok(Token::new(Type::Comment(text), Range::new(start, self.here())))
                } else if matches_char(ch, Matcher::Dec) {
                    let from = self.pos;
                    self.skip_matching(Matcher::Dec);
                    let run_end = self.pos;
                    proof {
                        lemma_scan_end_chars(s, start_pos, Matcher::Dec);
                        lemma_scan_end_bounds(s, start_pos, Matcher::Dec);
                    }
                    self.finish_decimal(start, from, run_end)
                } else if matches_char(ch, Matcher::Alnum) {
                    let sym_start = self.pos;
                    self.skip_matching(Matcher::Alnum);
                    let sym_end = self.pos;
                    proof {
                        lemma_scan_end_bounds(s, sym_start as int, Matcher::Alnum);
                    }
                    let text = self.slice(sym_start, sym_end);
                    Ok(Token::new(Type::Symbol(text), Range::new(start, self.here())))
                } else {
                    self.forward();
                    let shown = self.slice(self.pos - 1, self.pos);
                    Err(
                        Error::new(
                            String::from_str("Unknown ").concat(shown.as_str()),
                            Range::new(start, self.here()),
                        ),
                    )
                }
            },
        }
    }

    /// Look at the next token without consuming it: the token is read
    /// and cached, and a later [`Input::consume`] returns it.
    pub fn peek(&mut self) -> (r: Result<Option<Token>, Error>)
        requires
            old(self).wf(),
        ensures
            final(self).wf(),
            final(self).text() == old(self).text(),
            match spec_lex(old(self).text(), old(self).peek_pos()) {
                LexResult::Tok(st, s0, end) => (r matches Ok(ot) && ot matches Some(t)
                    && token_matches(t.data, st) && t.range == range_at(old(self).text(), s0, end))
                    && final(self).peek_pos() == old(self).peek_pos() && final(self).cached()
                    is Some,
                LexResult::Fail(msg, s0, end) => (r matches Err(e) && e.message@ == msg && e.at
                    == Some(range_at(old(self).text(), s0, end))) && final(self).position() == end
                    && final(self).cached() is None,
            },
    {
        if self.current.is_none() {
            let ghost p = self.position();
            proof {
                lemma_spec_lex_bounds(self.text(), p);
            }
            let tok = match self.read_next() {
                Ok(t) => t,
                Err(e) => { return Err(e) },
            };
            self.current = Some(tok);
            self.tok_pos = Ghost(p);
        }
        let r = match &self.current {
            Some(t) => Some(t.clone()),
            None => None,
        };
        Ok(r)
    }

    /// Consume the next token: the cached one if a peek read it, else
    /// the next from the input.
    pub fn consume(&mut self) -> (r: Result<Token, Error>)
        requires
            old(self).wf(),
        ensures
            final(self).wf(),
            final(self).text() == old(self).text(),
            final(self).cached() is None,
            match spec_lex(old(self).text(), old(self).peek_pos()) {
                LexResult::Tok(st, s0, end) => (r matches Ok(t) && token_matches(t.data, st)
                    && t.range == range_at(old(self).text(), s0, end)) && final(self).position()
                    == end,
                LexResult::Fail(msg, s0, end) => (r matches Err(e) && e.message@ == msg && e.at
                    == Some(range_at(old(self).text(), s0, end))) && final(self).position() == end,
            },
    {
        let mut taken: Option<Token> = None;
        core::mem::swap(&mut taken, &mut self.current);
        match taken {
            Some(tok) => Ok(tok),
            None => self.read_next(),
        }
    }
}

/// Wherever lexing starts inside the input, the produced span stays
/// inside it, and every token but the end-of-input marker consumes at
/// least one character.
pub proof fn lemma_spec_lex_bounds(s: Seq<char>, p: int)
    requires
        0 <= p <= s.len(),
    ensures
        match spec_lex(s, p) {
            LexResult::Tok(st, a, b) => p <= a <= b <= s.len() && (!(st is Eof) ==> b > p),
            LexResult::Fail(m, a, b) => p <= a <= b <= s.len() && b > p,
        },
{
    lemma_scan_end_bounds(s, p, Matcher::Whitespace);
    let start = scan_end(s, p, Matcher::Whitespace);
    if start < s.len() {
        let c = s[start];
        if c == 'r' {
            lemma_scan_end_bounds(s, start + 1, Matcher::Alnum);
            assert(scan_end(s, start, Matcher::Alnum) == scan_end(s, start + 1, Matcher::Alnum));
        } else if c == '0' {
            if start + 1 < s.len() {
                if s[start + 1] == 'x' {
                    lemma_scan_end_bounds(s, start + 2, Matcher::Hex);
                } else if s[start + 1] == 'b' {
                    lemma_scan_end_bounds(s, start + 2, Matcher::Bin);
                } else {
                    lemma_scan_end_bounds(s, start + 1, Matcher::Dec);
                }
            }
        } else if c == '"' {
            lemma_scan_end_bounds(s, start + 1, Matcher::NotQuote);
        } else if c == '#' {
            lemma_scan_end_bounds(s, start + 1, Matcher::NotNewline);
        } else if is_dec(c) {
            lemma_scan_end_bounds(s, start + 1, Matcher::Dec);
            assert(scan_end(s, start, Matcher::Dec) == scan_end(s, start + 1, Matcher::Dec));
        } else if is_alpha(c) {
            lemma_scan_end_bounds(s, start + 1, Matcher::Alnum);
            assert(scan_end(s, start, Matcher::Alnum) == scan_end(s, start + 1, Matcher::Alnum));
        }
    }
}

impl Input {
    /// A lexer over the given text, with the cursor at its start.
    pub fn new(input: String) -> (r: Self)
        ensures
            r.wf(),
            r.text() == input@,
            r.position() == 0,
            r.cached() is None,
    {
        let length = input.as_str().unicode_len();
        Self { input, length, line: 1, col: 0, pos: 0, current: None, tok_pos: Ghost(0) }
    }
}

impl From<String> for Input {
    /// A lexer over the given text, with the cursor at its start.
    fn from(input: String) -> (r: Self) {
        let length = input.as_str().unicode_len();
        Self {
            input,
            length,
            line: 1,
            col: 0,
            pos: 0,
            current: None,
            tok_pos: Ghost(0),
        }
    }
}

impl vstd::std_specs::convert::FromSpecImpl<String> for Input {
    open spec fn obeys_from_spec() -> bool {
        true
    }

    closed spec fn from_spec(input: String) -> Input {
        Input {
            length: input@.len() as usize,
            input,
            line: 1,
            col: 0,
            pos: 0,
            current: None,
            tok_pos: Ghost(0),
        }
    }
}

} // verus!
