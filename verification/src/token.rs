//! Tokens of sekirei source text, with positions and lexical errors.
use vstd::prelude::*;
use crate::text::{int_decimal, i64_to_decimal, push_char, push_str};
use crate::numtext::{float_debug_string, float_debug_text};

verus! {

/// A lexical token.
#[derive(Debug, Clone, PartialEq)]
pub enum Token {
    // literals
    Int(i64),
    /// A decimal literal with a fractional part, kept as its source text (digits '.' digits).
    Float(String),
    Str(String),
    Bool(bool),
    Null,
    // identifiers
    Ident(String),
    // keywords
    Fn,
    Let,
    Mut,
    Struct,
    Impl,
    Return,
    If,
    Elif,
    Else,
    Match,
    For,
    While,
    Loop,
    In,
    Break,
    Continue,
    Import,
    From,
    As,
    Try,
    Catch,
    SomeKw,
    NoneKw,
    OkKw,
    ErrKw,
    // type keywords
    TInt,
    TI8, TI16, TI32, TI64,
    TUint,
    TU8, TU16, TU32, TU64,
    TFloat,
    TF32, TF64,
    TString,
    TStr,
    TBool,
    TChar,
    TByte,
    TVoid,
    // operators
    Plus,
    Minus,
    Star,
    Slash,
    Percent,
    Eq,
    EqEq,
    NotEq,
    Lt,
    LtEq,
    Gt,
    GtEq,
    And,
    Or,
    Not,
    Pipe,
    Arrow,
    FatArrow,
    Question,
    Colon,
    Dot,
    DotDot,
    DotDotEq,
    Comma,
    Semicolon,
    LParen,
    RParen,
    LBrace,
    RBrace,
    LBracket,
    RBracket,
    // layout
    Newline,
    Indent,
    Dedent,
    Eof,
}

/// A token as a mathematical value: text payloads become character sequences.
pub enum TokView {
    Str(Seq<char>),
    Ident(Seq<char>),
    Float(Seq<char>),
    Other(Token),
}

impl View for Token {
    type V = TokView;

    open spec fn view(&self) -> TokView {
        match self {
            Token::Str(s) => TokView::Str(s@),
            Token::Ident(s) => TokView::Ident(s@),
            Token::Float(s) => TokView::Float(s@),
            t => TokView::Other(*t),
        }
    }
}

/// A source position: line (from 1) and column (from 0).
#[derive(Debug, Clone, Copy)]
pub struct Span {
    pub line: usize,
    pub col: usize,
}

/// A token with the position where it starts.
#[derive(Debug, Clone)]
pub struct Spanned {
    pub token: Token,
    pub span: Span,
}

impl View for Spanned {
    type V = (TokView, Span);

    open spec fn view(&self) -> (TokView, Span) {
        (self.token@, self.span)
    }
}

/// A lexical error with its position.
#[derive(Debug)]
pub struct LexError {
    pub message: String,
    pub line: usize,
    pub col: usize,
}

impl LexError {
    /// The text shown for this error: `[Lex Error] <message> (line <l>, col <c>)`.
    pub fn to_display_string(&self) -> (r: String)
        ensures
            r@ == "[Lex Error] "@ + self.message@ + " (line "@ + crate::text::decimal(self.line as nat)
                + ", col "@ + crate::text::decimal(self.col as nat) + ")"@,
    {
        let mut s = String::from_str("[Lex Error] ");
        crate::text::push_str(&mut s, self.message.as_str());
        crate::text::push_str(&mut s, " (line ");
        crate::text::push_decimal(&mut s, self.line as u64);
        crate::text::push_str(&mut s, ", col ");
        crate::text::push_decimal(&mut s, self.col as u64);
        crate::text::push_str(&mut s, ")");
        s
    }
}

/// The variant of a token, as a number; tokens without a payload are equal exactly
/// when their numbers are.
pub open spec fn kind(t: Token) -> u8 {
    match t {
        Token::Int(_) => 0u8,
        Token::Float(_) => 1u8,
        Token::Str(_) => 2u8,
        Token::Bool(_) => 3u8,
        Token::Ident(_) => 4u8,
        Token::Null => 5u8,
        Token::Fn => 6u8,
        Token::Let => 7u8,
        Token::Mut => 8u8,
        Token::Struct => 9u8,
        Token::Impl => 10u8,
        Token::Return => 11u8,
        Token::If => 12u8,
        Token::Elif => 13u8,
        Token::Else => 14u8,
        Token::Match => 15u8,
        Token::For => 16u8,
        Token::While => 17u8,
        Token::Loop => 18u8,
        Token::In => 19u8,
        Token::Break => 20u8,
        Token::Continue => 21u8,
        Token::Import => 22u8,
        Token::From => 23u8,
        Token::As => 24u8,
        Token::Try => 25u8,
        Token::Catch => 26u8,
        Token::SomeKw => 27u8,
        Token::NoneKw => 28u8,
        Token::OkKw => 29u8,
        Token::ErrKw => 30u8,
        Token::TInt => 31u8,
        Token::TI8 => 32u8,
        Token::TI16 => 33u8,
        Token::TI32 => 34u8,
        Token::TI64 => 35u8,
        Token::TUint => 36u8,
        Token::TU8 => 37u8,
        Token::TU16 => 38u8,
        Token::TU32 => 39u8,
        Token::TU64 => 40u8,
        Token::TFloat => 41u8,
        Token::TF32 => 42u8,
        Token::TF64 => 43u8,
        Token::TString => 44u8,
        Token::TStr => 45u8,
        Token::TBool => 46u8,
        Token::TChar => 47u8,
        Token::TByte => 48u8,
        Token::TVoid => 49u8,
        Token::Plus => 50u8,
        Token::Minus => 51u8,
        Token::Star => 52u8,
        Token::Slash => 53u8,
        Token::Percent => 54u8,
        Token::Eq => 55u8,
        Token::EqEq => 56u8,
        Token::NotEq => 57u8,
        Token::Lt => 58u8,
        Token::LtEq => 59u8,
        Token::Gt => 60u8,
        Token::GtEq => 61u8,
        Token::And => 62u8,
        Token::Or => 63u8,
        Token::Not => 64u8,
        Token::Pipe => 65u8,
        Token::Arrow => 66u8,
        Token::FatArrow => 67u8,
        Token::Question => 68u8,
        Token::Colon => 69u8,
        Token::Dot => 70u8,
        Token::DotDot => 71u8,
        Token::DotDotEq => 72u8,
        Token::Comma => 73u8,
        Token::Semicolon => 74u8,
        Token::LParen => 75u8,
        Token::RParen => 76u8,
        Token::LBrace => 77u8,
        Token::RBrace => 78u8,
        Token::LBracket => 79u8,
        Token::RBracket => 80u8,
        Token::Newline => 81u8,
        Token::Indent => 82u8,
        Token::Dedent => 83u8,
        Token::Eof => 84u8,
    }
}

/// The variant number of a token.
pub fn kind_of(t: &Token) -> (k: u8)
    ensures
        k == kind(*t),
{
    match t {
        Token::Int(_) => 0u8,
        Token::Float(_) => 1u8,
        Token::Str(_) => 2u8,
        Token::Bool(_) => 3u8,
        Token::Ident(_) => 4u8,
        Token::Null => 5u8,
        Token::Fn => 6u8,
        Token::Let => 7u8,
        Token::Mut => 8u8,
        Token::Struct => 9u8,
        Token::Impl => 10u8,
        Token::Return => 11u8,
        Token::If => 12u8,
        Token::Elif => 13u8,
        Token::Else => 14u8,
        Token::Match => 15u8,
        Token::For => 16u8,
        Token::While => 17u8,
        Token::Loop => 18u8,
        Token::In => 19u8,
        Token::Break => 20u8,
        Token::Continue => 21u8,
        Token::Import => 22u8,
        Token::From => 23u8,
        Token::As => 24u8,
        Token::Try => 25u8,
        Token::Catch => 26u8,
        Token::SomeKw => 27u8,
        Token::NoneKw => 28u8,
        Token::OkKw => 29u8,
        Token::ErrKw => 30u8,
        Token::TInt => 31u8,
        Token::TI8 => 32u8,
        Token::TI16 => 33u8,
        Token::TI32 => 34u8,
        Token::TI64 => 35u8,
        Token::TUint => 36u8,
        Token::TU8 => 37u8,
        Token::TU16 => 38u8,
        Token::TU32 => 39u8,
        Token::TU64 => 40u8,
        Token::TFloat => 41u8,
        Token::TF32 => 42u8,
        Token::TF64 => 43u8,
        Token::TString => 44u8,
        Token::TStr => 45u8,
        Token::TBool => 46u8,
        Token::TChar => 47u8,
        Token::TByte => 48u8,
        Token::TVoid => 49u8,
        Token::Plus => 50u8,
        Token::Minus => 51u8,
        Token::Star => 52u8,
        Token::Slash => 53u8,
        Token::Percent => 54u8,
        Token::Eq => 55u8,
        Token::EqEq => 56u8,
        Token::NotEq => 57u8,
        Token::Lt => 58u8,
        Token::LtEq => 59u8,
        Token::Gt => 60u8,
        Token::GtEq => 61u8,
        Token::And => 62u8,
        Token::Or => 63u8,
        Token::Not => 64u8,
        Token::Pipe => 65u8,
        Token::Arrow => 66u8,
        Token::FatArrow => 67u8,
        Token::Question => 68u8,
        Token::Colon => 69u8,
        Token::Dot => 70u8,
        Token::DotDot => 71u8,
        Token::DotDotEq => 72u8,
        Token::Comma => 73u8,
        Token::Semicolon => 74u8,
        Token::LParen => 75u8,
        Token::RParen => 76u8,
        Token::LBrace => 77u8,
        Token::RBrace => 78u8,
        Token::LBracket => 79u8,
        Token::RBracket => 80u8,
        Token::Newline => 81u8,
        Token::Indent => 82u8,
        Token::Dedent => 83u8,
        Token::Eof => 84u8,
    }
}

/// A token without a payload.
pub open spec fn is_plain(t: Token) -> bool {
    !(t is Int || t is Float || t is Str || t is Bool || t is Ident)
}

/// The token that a word (identifier-shaped text) stands for: a keyword, a type name,
/// a literal word, or else an identifier.
pub open spec fn word_token(w: Seq<char>) -> TokView {
    if w == seq!['f', 'n'] {
        TokView::Other(Token::Fn)
    } else if w == seq!['l', 'e', 't'] {
        TokView::Other(Token::Let)
    } else if w == seq!['m', 'u', 't'] {
        TokView::Other(Token::Mut)
    } else if w == seq!['s', 't', 'r', 'u', 'c', 't'] {
        TokView::Other(Token::Struct)
    } else if w == seq!['i', 'm', 'p', 'l'] {
        TokView::Other(Token::Impl)
    } else if w == seq!['r', 'e', 't', 'u', 'r', 'n'] {
        TokView::Other(Token::Return)
    } else if w == seq!['i', 'f'] {
        TokView::Other(Token::If)
    } else if w == seq!['e', 'l', 'i', 'f'] {
        TokView::Other(Token::Elif)
    } else if w == seq!['e', 'l', 's', 'e'] {
        TokView::Other(Token::Else)
    } else if w == seq!['m', 'a', 't', 'c', 'h'] {
        TokView::Other(Token::Match)
    } else if w == seq!['f', 'o', 'r'] {
        TokView::Other(Token::For)
    } else if w == seq!['w', 'h', 'i', 'l', 'e'] {
        TokView::Other(Token::While)
    } else if w == seq!['l', 'o', 'o', 'p'] {
        TokView::Other(Token::Loop)
    } else if w == seq!['i', 'n'] {
        TokView::Other(Token::In)
    } else if w == seq!['b', 'r', 'e', 'a', 'k'] {
        TokView::Other(Token::Break)
    } else if w == seq!['c', 'o', 'n', 't', 'i', 'n', 'u', 'e'] {
        TokView::Other(Token::Continue)
    } else if w == seq!['i', 'm', 'p', 'o', 'r', 't'] {
        TokView::Other(Token::Import)
    } else if w == seq!['f', 'r', 'o', 'm'] {
        TokView::Other(Token::From)
    } else if w == seq!['a', 's'] {
        TokView::Other(Token::As)
    } else if w == seq!['t', 'r', 'y'] {
        TokView::Other(Token::Try)
    } else if w == seq!['c', 'a', 't', 'c', 'h'] {
        TokView::Other(Token::Catch)
    } else if w == seq!['S', 'o', 'm', 'e'] {
        TokView::Other(Token::SomeKw)
    } else if w == seq!['N', 'o', 'n', 'e'] {
        TokView::Other(Token::NoneKw)
    } else if w == seq!['O', 'k'] {
        TokView::Other(Token::OkKw)
    } else if w == seq!['E', 'r', 'r'] {
        TokView::Other(Token::ErrKw)
    } else if w == seq!['t', 'r', 'u', 'e'] {
        TokView::Other(Token::Bool(true))
    } else if w == seq!['f', 'a', 'l', 's', 'e'] {
        TokView::Other(Token::Bool(false))
    } else if w == seq!['n', 'u', 'l', 'l'] {
        TokView::Other(Token::Null)
    } else if w == seq!['i', 'n', 't'] {
        TokView::Other(Token::TInt)
    } else if w == seq!['i', '8'] {
        TokView::Other(Token::TI8)
    } else if w == seq!['i', '1', '6'] {
        TokView::Other(Token::TI16)
    } else if w == seq!['i', '3', '2'] {
        TokView::Other(Token::TI32)
    } else if w == seq!['i', '6', '4'] {
        TokView::Other(Token::TI64)
    } else if w == seq!['u', 'i', 'n', 't'] {
        TokView::Other(Token::TUint)
    } else if w == seq!['u', '8'] {
        TokView::Other(Token::TU8)
    } else if w == seq!['u', '1', '6'] {
        TokView::Other(Token::TU16)
    } else if w == seq!['u', '3', '2'] {
        TokView::Other(Token::TU32)
    } else if w == seq!['u', '6', '4'] {
        TokView::Other(Token::TU64)
    } else if w == seq!['f', 'l', 'o', 'a', 't'] {
        TokView::Other(Token::TFloat)
    } else if w == seq!['f', '3', '2'] {
        TokView::Other(Token::TF32)
    } else if w == seq!['f', '6', '4'] {
        TokView::Other(Token::TF64)
    } else if w == seq!['s', 't', 'r', 'i', 'n', 'g'] {
        TokView::Other(Token::TString)
    } else if w == seq!['s', 't', 'r'] {
        TokView::Other(Token::TStr)
    } else if w == seq!['b', 'o', 'o', 'l'] {
        TokView::Other(Token::TBool)
    } else if w == seq!['c', 'h', 'a', 'r'] {
        TokView::Other(Token::TChar)
    } else if w == seq!['b', 'y', 't', 'e'] {
        TokView::Other(Token::TByte)
    } else if w == seq!['v', 'o', 'i', 'd'] {
        TokView::Other(Token::TVoid)
    } else {
        TokView::Ident(w)
    }
}

/// The token for the word `src[start..end]`.
#[verifier::spinoff_prover]
#[verifier::rlimit(50)]
pub fn word_token_of(src: &Vec<char>, start: usize, end: usize) -> (t: Token)
    requires
        start <= end <= src@.len(),
    ensures
        t@ == word_token(src@.subrange(start as int, end as int)),
{
    let ghost w = src@.subrange(start as int, end as int);
    let n = end - start;
    if n == 2 {
        if src[start + 0] == 'f' && src[start + 1] == 'n' {
            assert(w =~= seq!['f', 'n']);
            return Token::Fn;
        }
        if src[start + 0] == 'i' && src[start + 1] == 'f' {
            assert(w =~= seq!['i', 'f']);
            return Token::If;
        }
        if src[start + 0] == 'i' && src[start + 1] == 'n' {
            assert(w =~= seq!['i', 'n']);
            return Token::In;
        }
        if src[start + 0] == 'a' && src[start + 1] == 's' {
            assert(w =~= seq!['a', 's']);
            return Token::As;
        }
        if src[start + 0] == 'O' && src[start + 1] == 'k' {
            assert(w =~= seq!['O', 'k']);
            return Token::OkKw;
        }
        if src[start + 0] == 'i' && src[start + 1] == '8' {
            assert(w =~= seq!['i', '8']);
            return Token::TI8;
        }
        if src[start + 0] == 'u' && src[start + 1] == '8' {
            assert(w =~= seq!['u', '8']);
            return Token::TU8;
        }
    }
    if n == 3 {
        if src[start + 0] == 'l' && src[start + 1] == 'e' && src[start + 2] == 't' {
            assert(w =~= seq!['l', 'e', 't']);
            return Token::Let;
        }
        if src[start + 0] == 'm' && src[start + 1] == 'u' && src[start + 2] == 't' {
            assert(w =~= seq!['m', 'u', 't']);
            return Token::Mut;
        }
        if src[start + 0] == 'f' && src[start + 1] == 'o' && src[start + 2] == 'r' {
            assert(w =~= seq!['f', 'o', 'r']);
            return Token::For;
        }
        if src[start + 0] == 't' && src[start + 1] == 'r' && src[start + 2] == 'y' {
            assert(w =~= seq!['t', 'r', 'y']);
            return Token::Try;
        }
        if src[start + 0] == 'E' && src[start + 1] == 'r' && src[start + 2] == 'r' {
            assert(w =~= seq!['E', 'r', 'r']);
            return Token::ErrKw;
        }
        if src[start + 0] == 'i' && src[start + 1] == 'n' && src[start + 2] == 't' {
            assert(w =~= seq!['i', 'n', 't']);
            return Token::TInt;
        }
        if src[start + 0] == 'i' && src[start + 1] == '1' && src[start + 2] == '6' {
            assert(w =~= seq!['i', '1', '6']);
            return Token::TI16;
        }
        if src[start + 0] == 'i' && src[start + 1] == '3' && src[start + 2] == '2' {
            assert(w =~= seq!['i', '3', '2']);
            return Token::TI32;
        }
        if src[start + 0] == 'i' && src[start + 1] == '6' && src[start + 2] == '4' {
            assert(w =~= seq!['i', '6', '4']);
            return Token::TI64;
        }
        if src[start + 0] == 'u' && src[start + 1] == '1' && src[start + 2] == '6' {
            assert(w =~= seq!['u', '1', '6']);
            return Token::TU16;
        }
        if src[start + 0] == 'u' && src[start + 1] == '3' && src[start + 2] == '2' {
            assert(w =~= seq!['u', '3', '2']);
            return Token::TU32;
        }
        if src[start + 0] == 'u' && src[start + 1] == '6' && src[start + 2] == '4' {
            assert(w =~= seq!['u', '6', '4']);
            return Token::TU64;
        }
        if src[start + 0] == 'f' && src[start + 1] == '3' && src[start + 2] == '2' {
            assert(w =~= seq!['f', '3', '2']);
            return Token::TF32;
        }
        if src[start + 0] == 'f' && src[start + 1] == '6' && src[start + 2] == '4' {
            assert(w =~= seq!['f', '6', '4']);
            return Token::TF64;
        }
        if src[start + 0] == 's' && src[start + 1] == 't' && src[start + 2] == 'r' {
            assert(w =~= seq!['s', 't', 'r']);
            return Token::TStr;
        }
    }
    if n == 4 {
        if src[start + 0] == 'i' && src[start + 1] == 'm' && src[start + 2] == 'p' && src[start + 3] == 'l' {
            assert(w =~= seq!['i', 'm', 'p', 'l']);
            return Token::Impl;
        }
        if src[start + 0] == 'e' && src[start + 1] == 'l' && src[start + 2] == 'i' && src[start + 3] == 'f' {
            assert(w =~= seq!['e', 'l', 'i', 'f']);
            return Token::Elif;
        }
        if src[start + 0] == 'e' && src[start + 1] == 'l' && src[start + 2] == 's' && src[start + 3] == 'e' {
            assert(w =~= seq!['e', 'l', 's', 'e']);
            return Token::Else;
        }
        if src[start + 0] == 'l' && src[start + 1] == 'o' && src[start + 2] == 'o' && src[start + 3] == 'p' {
            assert(w =~= seq!['l', 'o', 'o', 'p']);
            return Token::Loop;
        }
        if src[start + 0] == 'f' && src[start + 1] == 'r' && src[start + 2] == 'o' && src[start + 3] == 'm' {
            assert(w =~= seq!['f', 'r', 'o', 'm']);
            return Token::From;
        }
        if src[start + 0] == 'S' && src[start + 1] == 'o' && src[start + 2] == 'm' && src[start + 3] == 'e' {
            assert(w =~= seq!['S', 'o', 'm', 'e']);
            return Token::SomeKw;
        }
        if src[start + 0] == 'N' && src[start + 1] == 'o' && src[start + 2] == 'n' && src[start + 3] == 'e' {
            assert(w =~= seq!['N', 'o', 'n', 'e']);
            return Token::NoneKw;
        }
        if src[start + 0] == 't' && src[start + 1] == 'r' && src[start + 2] == 'u' && src[start + 3] == 'e' {
            assert(w =~= seq!['t', 'r', 'u', 'e']);
            return Token::Bool(true);
        }
        if src[start + 0] == 'n' && src[start + 1] == 'u' && src[start + 2] == 'l' && src[start + 3] == 'l' {
            assert(w =~= seq!['n', 'u', 'l', 'l']);
            return Token::Null;
        }
        if src[start + 0] == 'u' && src[start + 1] == 'i' && src[start + 2] == 'n' && src[start + 3] == 't' {
            assert(w =~= seq!['u', 'i', 'n', 't']);
            return Token::TUint;
        }
        if src[start + 0] == 'b' && src[start + 1] == 'o' && src[start + 2] == 'o' && src[start + 3] == 'l' {
            assert(w =~= seq!['b', 'o', 'o', 'l']);
            return Token::TBool;
        }
        if src[start + 0] == 'c' && src[start + 1] == 'h' && src[start + 2] == 'a' && src[start + 3] == 'r' {
            assert(w =~= seq!['c', 'h', 'a', 'r']);
            return Token::TChar;
        }
        if src[start + 0] == 'b' && src[start + 1] == 'y' && src[start + 2] == 't' && src[start + 3] == 'e' {
            assert(w =~= seq!['b', 'y', 't', 'e']);
            return Token::TByte;
        }
        if src[start + 0] == 'v' && src[start + 1] == 'o' && src[start + 2] == 'i' && src[start + 3] == 'd' {
            assert(w =~= seq!['v', 'o', 'i', 'd']);
            return Token::TVoid;
        }
    }
    if n == 5 {
        if src[start + 0] == 'm' && src[start + 1] == 'a' && src[start + 2] == 't' && src[start + 3] == 'c' && src[start + 4] == 'h' {
            assert(w =~= seq!['m', 'a', 't', 'c', 'h']);
            return Token::Match;
        }
        if src[start + 0] == 'w' && src[start + 1] == 'h' && src[start + 2] == 'i' && src[start + 3] == 'l' && src[start + 4] == 'e' {
            assert(w =~= seq!['w', 'h', 'i', 'l', 'e']);
            return Token::While;
        }
        if src[start + 0] == 'b' && src[start + 1] == 'r' && src[start + 2] == 'e' && src[start + 3] == 'a' && src[start + 4] == 'k' {
            assert(w =~= seq!['b', 'r', 'e', 'a', 'k']);
            return Token::Break;
        }
        if src[start + 0] == 'c' && src[start + 1] == 'a' && src[start + 2] == 't' && src[start + 3] == 'c' && src[start + 4] == 'h' {
            assert(w =~= seq!['c', 'a', 't', 'c', 'h']);
            return Token::Catch;
        }
        if src[start + 0] == 'f' && src[start + 1] == 'a' && src[start + 2] == 'l' && src[start + 3] == 's' && src[start + 4] == 'e' {
            assert(w =~= seq!['f', 'a', 'l', 's', 'e']);
            return Token::Bool(false);
        }
        if src[start + 0] == 'f' && src[start + 1] == 'l' && src[start + 2] == 'o' && src[start + 3] == 'a' && src[start + 4] == 't' {
            assert(w =~= seq!['f', 'l', 'o', 'a', 't']);
            return Token::TFloat;
        }
    }
    if n == 6 {
        if src[start + 0] == 's' && src[start + 1] == 't' && src[start + 2] == 'r' && src[start + 3] == 'u' && src[start + 4] == 'c' && src[start + 5] == 't' {
            assert(w =~= seq!['s', 't', 'r', 'u', 'c', 't']);
            return Token::Struct;
        }
        if src[start + 0] == 'r' && src[start + 1] == 'e' && src[start + 2] == 't' && src[start + 3] == 'u' && src[start + 4] == 'r' && src[start + 5] == 'n' {
            assert(w =~= seq!['r', 'e', 't', 'u', 'r', 'n']);
            return Token::Return;
        }
        if src[start + 0] == 'i' && src[start + 1] == 'm' && src[start + 2] == 'p' && src[start + 3] == 'o' && src[start + 4] == 'r' && src[start + 5] == 't' {
            assert(w =~= seq!['i', 'm', 'p', 'o', 'r', 't']);
            return Token::Import;
        }
        if src[start + 0] == 's' && src[start + 1] == 't' && src[start + 2] == 'r' && src[start + 3] == 'i' && src[start + 4] == 'n' && src[start + 5] == 'g' {
            assert(w =~= seq!['s', 't', 'r', 'i', 'n', 'g']);
            return Token::TString;
        }
    }
    if n == 8 {
        if src[start + 0] == 'c' && src[start + 1] == 'o' && src[start + 2] == 'n' && src[start + 3] == 't' && src[start + 4] == 'i' && src[start + 5] == 'n' && src[start + 6] == 'u' && src[start + 7] == 'e' {
            assert(w =~= seq!['c', 'o', 'n', 't', 'i', 'n', 'u', 'e']);
            return Token::Continue;
        }
    }
    let mut s = String::new();
    let mut i = start;
    while i < end
        invariant
            start <= i <= end <= src@.len(),
            s@ == src@.subrange(start as int, i as int),
        decreases end - i,
    {
        push_char(&mut s, src[i]);
        assert(src@.subrange(start as int, i + 1) =~= src@.subrange(start as int, i as int).push(src@[i as int]));
        i += 1;
    }
    Token::Ident(s)
}

/// The name of a payload-free token as the derived `Debug` writes it.
pub open spec fn plain_name(t: Token) -> Seq<char> {
    match t {
        Token::Null => "Null"@,
        Token::Fn => "Fn"@,
        Token::Let => "Let"@,
        Token::Mut => "Mut"@,
        Token::Struct => "Struct"@,
        Token::Impl => "Impl"@,
        Token::Return => "Return"@,
        Token::If => "If"@,
        Token::Elif => "Elif"@,
        Token::Else => "Else"@,
        Token::Match => "Match"@,
        Token::For => "For"@,
        Token::While => "While"@,
        Token::Loop => "Loop"@,
        Token::In => "In"@,
        Token::Break => "Break"@,
        Token::Continue => "Continue"@,
        Token::Import => "Import"@,
        Token::From => "From"@,
        Token::As => "As"@,
        Token::Try => "Try"@,
        Token::Catch => "Catch"@,
        Token::SomeKw => "SomeKw"@,
        Token::NoneKw => "NoneKw"@,
        Token::OkKw => "OkKw"@,
        Token::ErrKw => "ErrKw"@,
        Token::TInt => "TInt"@,
        Token::TI8 => "TI8"@,
        Token::TI16 => "TI16"@,
        Token::TI32 => "TI32"@,
        Token::TI64 => "TI64"@,
        Token::TUint => "TUint"@,
        Token::TU8 => "TU8"@,
        Token::TU16 => "TU16"@,
        Token::TU32 => "TU32"@,
        Token::TU64 => "TU64"@,
        Token::TFloat => "TFloat"@,
        Token::TF32 => "TF32"@,
        Token::TF64 => "TF64"@,
        Token::TString => "TString"@,
        Token::TStr => "TStr"@,
        Token::TBool => "TBool"@,
        Token::TChar => "TChar"@,
        Token::TByte => "TByte"@,
        Token::TVoid => "TVoid"@,
        Token::Plus => "Plus"@,
        Token::Minus => "Minus"@,
        Token::Star => "Star"@,
        Token::Slash => "Slash"@,
        Token::Percent => "Percent"@,
        Token::Eq => "Eq"@,
        Token::EqEq => "EqEq"@,
        Token::NotEq => "NotEq"@,
        Token::Lt => "Lt"@,
        Token::LtEq => "LtEq"@,
        Token::Gt => "Gt"@,
        Token::GtEq => "GtEq"@,
        Token::And => "And"@,
        Token::Or => "Or"@,
        Token::Not => "Not"@,
        Token::Pipe => "Pipe"@,
        Token::Arrow => "Arrow"@,
        Token::FatArrow => "FatArrow"@,
        Token::Question => "Question"@,
        Token::Colon => "Colon"@,
        Token::Dot => "Dot"@,
        Token::DotDot => "DotDot"@,
        Token::DotDotEq => "DotDotEq"@,
        Token::Comma => "Comma"@,
        Token::Semicolon => "Semicolon"@,
        Token::LParen => "LParen"@,
        Token::RParen => "RParen"@,
        Token::LBrace => "LBrace"@,
        Token::RBrace => "RBrace"@,
        Token::LBracket => "LBracket"@,
        Token::RBracket => "RBracket"@,
        Token::Newline => "Newline"@,
        Token::Indent => "Indent"@,
        Token::Dedent => "Dedent"@,
        Token::Eof => "Eof"@,
        _ => Seq::empty(),
    }
}

/// The name of a payload-free token.
pub fn plain_name_of(t: &Token) -> (s: &'static str)
    requires
        is_plain(*t),
    ensures
        s@ == plain_name(*t),
{
    match t {
        Token::Null => "Null",
        Token::Fn => "Fn",
        Token::Let => "Let",
        Token::Mut => "Mut",
        Token::Struct => "Struct",
        Token::Impl => "Impl",
        Token::Return => "Return",
        Token::If => "If",
        Token::Elif => "Elif",
        Token::Else => "Else",
        Token::Match => "Match",
        Token::For => "For",
        Token::While => "While",
        Token::Loop => "Loop",
        Token::In => "In",
        Token::Break => "Break",
        Token::Continue => "Continue",
        Token::Import => "Import",
        Token::From => "From",
        Token::As => "As",
        Token::Try => "Try",
        Token::Catch => "Catch",
        Token::SomeKw => "SomeKw",
        Token::NoneKw => "NoneKw",
        Token::OkKw => "OkKw",
        Token::ErrKw => "ErrKw",
        Token::TInt => "TInt",
        Token::TI8 => "TI8",
        Token::TI16 => "TI16",
        Token::TI32 => "TI32",
        Token::TI64 => "TI64",
        Token::TUint => "TUint",
        Token::TU8 => "TU8",
        Token::TU16 => "TU16",
        Token::TU32 => "TU32",
        Token::TU64 => "TU64",
        Token::TFloat => "TFloat",
        Token::TF32 => "TF32",
        Token::TF64 => "TF64",
        Token::TString => "TString",
        Token::TStr => "TStr",
        Token::TBool => "TBool",
        Token::TChar => "TChar",
        Token::TByte => "TByte",
        Token::TVoid => "TVoid",
        Token::Plus => "Plus",
        Token::Minus => "Minus",
        Token::Star => "Star",
        Token::Slash => "Slash",
        Token::Percent => "Percent",
        Token::Eq => "Eq",
        Token::EqEq => "EqEq",
        Token::NotEq => "NotEq",
        Token::Lt => "Lt",
        Token::LtEq => "LtEq",
        Token::Gt => "Gt",
        Token::GtEq => "GtEq",
        Token::And => "And",
        Token::Or => "Or",
        Token::Not => "Not",
        Token::Pipe => "Pipe",
        Token::Arrow => "Arrow",
        Token::FatArrow => "FatArrow",
        Token::Question => "Question",
        Token::Colon => "Colon",
        Token::Dot => "Dot",
        Token::DotDot => "DotDot",
        Token::DotDotEq => "DotDotEq",
        Token::Comma => "Comma",
        Token::Semicolon => "Semicolon",
        Token::LParen => "LParen",
        Token::RParen => "RParen",
        Token::LBrace => "LBrace",
        Token::RBrace => "RBrace",
        Token::LBracket => "LBracket",
        Token::RBracket => "RBracket",
        Token::Newline => "Newline",
        Token::Indent => "Indent",
        Token::Dedent => "Dedent",
        Token::Eof => "Eof",
        _ => "",
    }
}

/// A string as std's `Debug` writes it: quoted, with escapes.
pub uninterp spec fn str_debug(s: Seq<char>) -> Seq<char>;

/// std's `Debug` formatting of a string slice. Claimed: the text depends on the characters
/// alone, and is named `str_debug`.
#[verifier::external_body]
pub(crate) fn debug_str(s: &str) -> (r: String)
    ensures
        r@ == str_debug(s@),
{
    format!("{:?}", s)
}

/// A token as its derived `Debug` writes it, for example `Int(42)`, `Str("a")`, `Colon`.
pub open spec fn tok_debug(t: Token) -> Seq<char> {
    match t {
        Token::Int(n) => "Int("@ + int_decimal(n as int) + ")"@,
        Token::Float(s) => "Float("@ + float_debug_text(s@) + ")"@,
        Token::Str(s) => "Str("@ + str_debug(s@) + ")"@,
        Token::Bool(b) => "Bool("@ + (if b { "true"@ } else { "false"@ }) + ")"@,
        Token::Ident(s) => "Ident("@ + str_debug(s@) + ")"@,
        _ => plain_name(t),
    }
}

/// Appends the `Debug` text of a token.
pub fn push_token_debug(out: &mut String, t: &Token)
    ensures
        final(out)@ == old(out)@ + tok_debug(*t),
{
    match t {
        Token::Int(n) => {
            push_str(out, "Int(");
            let d = i64_to_decimal(*n);
            push_str(out, d.as_str());
            push_str(out, ")");
        },
        Token::Float(s) => {
            push_str(out, "Float(");
            let d = float_debug_string(s.as_str());
            push_str(out, d.as_str());
            push_str(out, ")");
        },
        Token::Str(s) => {
            push_str(out, "Str(");
            let d = debug_str(s.as_str());
            push_str(out, d.as_str());
            push_str(out, ")");
        },
        Token::Bool(b) => {
            push_str(out, "Bool(");
            if *b {
                push_str(out, "true");
            } else {
                push_str(out, "false");
            }
            push_str(out, ")");
        },
        Token::Ident(s) => {
            push_str(out, "Ident(");
            let d = debug_str(s.as_str());
            push_str(out, d.as_str());
            push_str(out, ")");
        },
        _ => {
            push_str(out, plain_name_of(t));
        },
    }
    assert(out@ =~= old(out)@ + tok_debug(*t));
}

/// Whether `t` is the payload-free token `k`.
pub fn token_is(t: &Token, k: &Token) -> (r: bool)
    requires
        is_plain(*k),
    ensures
        r == (*t == *k),
{
    kind_of(t) == kind_of(k)
}

/// Whether two tokens are the same, text payloads compared by their characters.
pub fn same_token(a: &Token, b: &Token) -> (r: bool)
    ensures
        r == (a@ == b@),
{
    match (a, b) {
        (Token::Int(x), Token::Int(y)) => *x == *y,
        (Token::Bool(x), Token::Bool(y)) => *x == *y,
        (Token::Str(x), Token::Str(y)) => *x == *y,
        (Token::Ident(x), Token::Ident(y)) => *x == *y,
        (Token::Float(x), Token::Float(y)) => *x == *y,
        _ => {
            let b_plain = match b {
                Token::Int(_) | Token::Float(_) | Token::Str(_) | Token::Bool(_) | Token::Ident(_) => false,
                _ => true,
            };
            if b_plain {
                token_is(a, b)
            } else {
                false
            }
        },
    }
}

} // verus!
