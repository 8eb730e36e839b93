use vstd::prelude::*;

verus! {

/// A classified token of the source language.
#[derive(Debug, Clone, PartialEq, Eq)]
pub enum Tok {
    Func,
    Return,
    Int,
    Print,
    Read,
    While,
    If,
    Else,
    Break,
    Continue,
    LeftParen,
    RightParen,
    LeftCurly,
    RightCurly,
    LeftBracket,
    RightBracket,
    Comma,
    Semicolon,
    Plus,
    Subtract,
    Multiply,
    Divide,
    Modulus,
    Assign,
    Less,
    LessEqual,
    Greater,
    GreaterEqual,
    Equality,
    NotEqual,
    Identifier(Vec<u8>),
    Number(Vec<u8>),
    Empty,
}

/// The mathematical form of a token: identifiers and numbers carry their bytes
/// as a sequence.
pub enum STok {
    Func,
    Return,
    Int,
    Print,
    Read,
    While,
    If,
    Else,
    Break,
    Continue,
    LeftParen,
    RightParen,
    LeftCurly,
    RightCurly,
    LeftBracket,
    RightBracket,
    Comma,
    Semicolon,
    Plus,
    Subtract,
    Multiply,
    Divide,
    Modulus,
    Assign,
    Less,
    LessEqual,
    Greater,
    GreaterEqual,
    Equality,
    NotEqual,
    Identifier(Seq<u8>),
    Number(Seq<u8>),
    Empty,
}

impl View for Tok {
    type V = STok;

    open spec fn view(&self) -> STok {
        match self {
            Tok::Func => STok::Func,
            Tok::Return => STok::Return,
            Tok::Int => STok::Int,
            Tok::Print => STok::Print,
            Tok::Read => STok::Read,
            Tok::While => STok::While,
            Tok::If => STok::If,
            Tok::Else => STok::Else,
            Tok::Break => STok::Break,
            Tok::Continue => STok::Continue,
            Tok::LeftParen => STok::LeftParen,
            Tok::RightParen => STok::RightParen,
            Tok::LeftCurly => STok::LeftCurly,
            Tok::RightCurly => STok::RightCurly,
            Tok::LeftBracket => STok::LeftBracket,
            Tok::RightBracket => STok::RightBracket,
            Tok::Comma => STok::Comma,
            Tok::Semicolon => STok::Semicolon,
            Tok::Plus => STok::Plus,
            Tok::Subtract => STok::Subtract,
            Tok::Multiply => STok::Multiply,
            Tok::Divide => STok::Divide,
            Tok::Modulus => STok::Modulus,
            Tok::Assign => STok::Assign,
            Tok::Less => STok::Less,
            Tok::LessEqual => STok::LessEqual,
            Tok::Greater => STok::Greater,
            Tok::GreaterEqual => STok::GreaterEqual,
            Tok::Equality => STok::Equality,
            Tok::NotEqual => STok::NotEqual,
            Tok::Identifier(v) => STok::Identifier(v@),
            Tok::Number(v) => STok::Number(v@),
            Tok::Empty => STok::Empty,
        }
    }
}

/// The token at position `p` of a stream whose meaningful tokens are `ts`:
/// past its end the stream yields only the end sentinel.
pub open spec fn tok_at(ts: Seq<STok>, p: int) -> STok {
    if 0 <= p < ts.len() {
        ts[p]
    } else {
        STok::Empty
    }
}

/// The variant of a token, without its bytes.
#[derive(Debug, Clone, Copy, PartialEq, Eq, Structural)]
pub enum Kind {
    Func,
    Return,
    Int,
    Print,
    Read,
    While,
    If,
    Else,
    Break,
    Continue,
    LeftParen,
    RightParen,
    LeftCurly,
    RightCurly,
    LeftBracket,
    RightBracket,
    Comma,
    Semicolon,
    Plus,
    Subtract,
    Multiply,
    Divide,
    Modulus,
    Assign,
    Less,
    LessEqual,
    Greater,
    GreaterEqual,
    Equality,
    NotEqual,
    Identifier,
    Number,
    Empty,
}

pub open spec fn kind_of(t: STok) -> Kind {
    match t {
        STok::Func => Kind::Func,
        STok::Return => Kind::Return,
        STok::Int => Kind::Int,
        STok::Print => Kind::Print,
        STok::Read => Kind::Read,
        STok::While => Kind::While,
        STok::If => Kind::If,
        STok::Else => Kind::Else,
        STok::Break => Kind::Break,
        STok::Continue => Kind::Continue,
        STok::LeftParen => Kind::LeftParen,
        STok::RightParen => Kind::RightParen,
        STok::LeftCurly => Kind::LeftCurly,
        STok::RightCurly => Kind::RightCurly,
        STok::LeftBracket => Kind::LeftBracket,
        STok::RightBracket => Kind::RightBracket,
        STok::Comma => Kind::Comma,
        STok::Semicolon => Kind::Semicolon,
        STok::Plus => Kind::Plus,
        STok::Subtract => Kind::Subtract,
        STok::Multiply => Kind::Multiply,
        STok::Divide => Kind::Divide,
        STok::Modulus => Kind::Modulus,
        STok::Assign => Kind::Assign,
        STok::Less => Kind::Less,
        STok::LessEqual => Kind::LessEqual,
        STok::Greater => Kind::Greater,
        STok::GreaterEqual => Kind::GreaterEqual,
        STok::Equality => Kind::Equality,
        STok::NotEqual => Kind::NotEqual,
        STok::Identifier(_) => Kind::Identifier,
        STok::Number(_) => Kind::Number,
        STok::Empty => Kind::Empty,
    }
}

/// The bytes carried by an identifier or a number; none for other tokens.
pub open spec fn payload(t: STok) -> Seq<u8> {
    match t {
        STok::Identifier(v) => v,
        STok::Number(v) => v,
        _ => Seq::empty(),
    }
}

/// The variant of `t`.
pub fn kind(t: &Tok) -> (k: Kind)
    ensures
        k == kind_of(t@),
{
    match t {
        Tok::Func => Kind::Func,
        Tok::Return => Kind::Return,
        Tok::Int => Kind::Int,
        Tok::Print => Kind::Print,
        Tok::Read => Kind::Read,
        Tok::While => Kind::While,
        Tok::If => Kind::If,
        Tok::Else => Kind::Else,
        Tok::Break => Kind::Break,
        Tok::Continue => Kind::Continue,
        Tok::LeftParen => Kind::LeftParen,
        Tok::RightParen => Kind::RightParen,
        Tok::LeftCurly => Kind::LeftCurly,
        Tok::RightCurly => Kind::RightCurly,
        Tok::LeftBracket => Kind::LeftBracket,
        Tok::RightBracket => Kind::RightBracket,
        Tok::Comma => Kind::Comma,
        Tok::Semicolon => Kind::Semicolon,
        Tok::Plus => Kind::Plus,
        Tok::Subtract => Kind::Subtract,
        Tok::Multiply => Kind::Multiply,
        Tok::Divide => Kind::Divide,
        Tok::Modulus => Kind::Modulus,
        Tok::Assign => Kind::Assign,
        Tok::Less => Kind::Less,
        Tok::LessEqual => Kind::LessEqual,
        Tok::Greater => Kind::Greater,
        Tok::GreaterEqual => Kind::GreaterEqual,
        Tok::Equality => Kind::Equality,
        Tok::NotEqual => Kind::NotEqual,
        Tok::Identifier(_) => Kind::Identifier,
        Tok::Number(_) => Kind::Number,
        Tok::Empty => Kind::Empty,
    }
}

/// A copy of a byte string.
pub fn copy_bytes(v: &Vec<u8>) -> (r: Vec<u8>)
    ensures
        r@ == v@,
{
    let mut r: Vec<u8> = Vec::new();
    let mut i: usize = 0;
    while i < v.len()
        invariant
            i <= v@.len(),
            r@ == v@.subrange(0, i as int),
        decreases v@.len() - i,
    {
        r.push(v[i]);
        i = i + 1;
        assert(r@ =~= v@.subrange(0, i as int));
    }
    assert(v@.subrange(0, v@.len() as int) =~= v@);
    r
}

/// A copy of the bytes carried by `t`.
pub fn payload_of(t: &Tok) -> (r: Vec<u8>)
    ensures
        r@ == payload(t@),
{
    match t {
        Tok::Identifier(v) => copy_bytes(v),
        Tok::Number(v) => copy_bytes(v),
        _ => Vec::new(),
    }
}

} // verus!
