//! Source positions, ranges, and lexical tokens.

use vstd::prelude::*;

verus! {

/// A position in the source text: 1-indexed line, 0-indexed column.
#[derive(Clone, Copy, PartialEq, Eq, Structural, Debug)]
pub struct Point {
    pub line: usize,
    pub column: usize,
}

impl Point {
    pub fn new(line: usize, column: usize) -> (r: Self)
        ensures
            r == (Point { line, column }),
    {
        Self { line, column }
    }

    pub fn line(&self) -> (r: usize)
        ensures
            r == self.line,
    {
        self.line
    }

    pub fn column(&self) -> (r: usize)
        ensures
            r == self.column,
    {
        self.column
    }
}

/// A span of source text, from the start of the first character to
/// just past the last one.
#[derive(Clone, Copy, PartialEq, Eq, Structural, Debug)]
pub struct Range {
    pub start: Point,
    pub end: Point,
}

impl Range {
    pub fn new(start: Point, end: Point) -> (r: Self)
        ensures
            r == (Range { start, end }),
    {
        Self { start, end }
    }

    pub fn start(&self) -> (r: Point)
        ensures
            r == self.start,
    {
        self.start
    }

    pub fn end(&self) -> (r: Point)
        ensures
            r == self.end,
    {
        self.end
    }

    /// Ranges combine left to right: the result spans from the start
    /// of `self` to the end of `rhs`.
    pub fn join(self, rhs: Self) -> (r: Self)
        ensures
            r == (Range { start: self.start, end: rhs.end }),
    {
        Self { start: self.start, end: rhs.end }
    }

    /// The range written out: `[line:start-end]` within one line,
    /// else `[lines:columns]` with both pairs spelled out.
    pub fn to_text(&self) -> (r: String)
        ensures
            r@ == spec_range_text(*self),
    {
        proof {
            reveal_strlit("[");
            reveal_strlit(":");
            reveal_strlit("-");
            reveal_strlit("]");
        }
        let r = if self.start.line == self.end.line {
            String::from_str("[").concat(crate::node::dec_nat_text(self.start.line).as_str())
                .concat(":").concat(crate::node::dec_nat_text(self.start.column).as_str()).concat(
                "-",
            ).concat(crate::node::dec_nat_text(self.end.column).as_str()).concat("]")
        } else {
            String::from_str("[").concat(crate::node::dec_nat_text(self.start.line).as_str())
                .concat("-").concat(crate::node::dec_nat_text(self.end.line).as_str()).concat(":")
                .concat(crate::node::dec_nat_text(self.start.column).as_str()).concat("-").concat(
                crate::node::dec_nat_text(self.end.column).as_str(),
            ).concat("]")
        };
        proof {
            assert(r@ =~= spec_range_text(*self));
        }
        r
    }
}

/// The text a range is written as.
pub open spec fn spec_range_text(r: Range) -> Seq<char> {
    if r.start.line == r.end.line {
        "["@ + crate::node::spec_dec_nat(r.start.line as int) + ":"@ + crate::node::spec_dec_nat(
            r.start.column as int,
        ) + "-"@ + crate::node::spec_dec_nat(r.end.column as int) + "]"@
    } else {
        "["@ + crate::node::spec_dec_nat(r.start.line as int) + "-"@ + crate::node::spec_dec_nat(
            r.end.line as int,
        ) + ":"@ + crate::node::spec_dec_nat(r.start.column as int) + "-"@
            + crate::node::spec_dec_nat(r.end.column as int) + "]"@
    }
}

/// The kind of a lexical token, together with its payload.
#[derive(PartialEq, Debug)]
pub enum Type {
    /// A bare word: a mnemonic, directive, or label name.
    Symbol(String),
    /// `r0` to `r3`.
    Register(u8),
    /// A decimal literal, `0` to `255`.
    Decimal(u8),
    /// `0x` followed by exactly two hexadecimal digits.
    Hexadecimal(u8),
    /// `0b` followed by exactly eight binary digits.
    Binary(u8),
    /// A quoted string.
    Text(String),
    /// `#` up to the end of the line.
    Comment(String),
    /// An entry-point marker.
    Entry(String),
    /// `,`
    Comma,
    /// `-`
    Minus,
    /// `+`
    Add,
    /// `_`
    Underscore,
    /// `:`
    Colon,
    /// `>`
    Gt,
    /// `'`
    Apostrophy,
    /// `/`
    Slash,
    /// `?`
    Question,
    /// `!`
    Exclame,
    /// `.`
    Dot,
    /// End of input.
    Eof,
}

impl Clone for Type {
    /// A clone is equal to the original, string payloads too.
    fn clone(&self) -> (r: Self)
        ensures
            r == self,
    {
        match self {
            Type::Symbol(s) => Type::Symbol(s.clone()),
            Type::Register(n) => Type::Register(*n),
            Type::Decimal(n) => Type::Decimal(*n),
            Type::Hexadecimal(n) => Type::Hexadecimal(*n),
            Type::Binary(n) => Type::Binary(*n),
            Type::Text(s) => Type::Text(s.clone()),
            Type::Comment(s) => Type::Comment(s.clone()),
            Type::Entry(s) => Type::Entry(s.clone()),
            Type::Comma => Type::Comma,
            Type::Minus => Type::Minus,
            Type::Add => Type::Add,
            Type::Underscore => Type::Underscore,
            Type::Colon => Type::Colon,
            Type::Gt => Type::Gt,
            Type::Apostrophy => Type::Apostrophy,
            Type::Slash => Type::Slash,
            Type::Question => Type::Question,
            Type::Exclame => Type::Exclame,
            Type::Dot => Type::Dot,
            Type::Eof => Type::Eof,
        }
    }
}

/// A token: a kind plus the source range it was read from.
#[derive(Debug)]
pub struct Token {
    pub data: Type,
    pub range: Range,
}

impl Clone for Token {
    /// A clone is equal to the original.
    fn clone(&self) -> (r: Self)
        ensures
            r == self,
    {
        Token { data: self.data.clone(), range: self.range }
    }
}

impl Token {
    pub fn new(data: Type, range: Range) -> (r: Self)
        ensures
            r == (Token { data, range }),
    {
        Self { data, range }
    }

    pub fn range(&self) -> (r: Range)
        ensures
            r == self.range,
    {
        self.range
    }

    /// The token's kind and payload.
    pub fn data(&self) -> (r: &Type)
        ensures
            r == &self.data,
    {
        &self.data
    }
}

} // verus!
