//! Tokens of the source language and the errors of the lexical phase.

use vstd::prelude::*;
use vstd::string::StringExecFns;
use crate::text::{decimal, decimal_string};

verus! {

/// Number of token kinds.
pub const NUM_TOKEN_KINDS: usize = 38;

/// A token. An identifier carries its name, an integer literal its value and
/// a decimal literal its text as written.
#[derive(Debug, PartialEq)]
pub enum Token {
    Identifier(String),
    Tint(u32),
    Tdouble(String),
    Kif,
    Kthen,
    Kelse,
    Kfi,
    Kwhile,
    Kdo,
    Kod,
    Kdef,
    Kfed,
    Kreturn,
    Kand,
    Kor,
    Knot,
    Kint,
    Kdouble,
    Kprint,
    Oplus,
    Ominus,
    Omultiply,
    Odivide,
    Omod,
    Oassign,
    Oequal,
    Olt,
    Olte,
    Ogt,
    Ogte,
    Onot,
    Scomma,
    Ssemicolon,
    Speriod,
    Soparen,
    Scparen,
    Sobracket,
    Scbracket,
}

/// What a token is, as plain values: its kind, the text it carries (empty
/// unless it is an identifier or a decimal literal) and the value it carries
/// (zero unless it is an integer literal).
pub struct TokenView {
    pub kind: nat,
    pub name: Seq<char>,
    pub value: u32,
}

impl View for Token {
    type V = TokenView;

    open spec fn view(&self) -> TokenView {
        TokenView { kind: self.kind(), name: self.name(), value: self.value() }
    }
}

impl Token {
    /// The ordinal of the token's kind.
    pub open spec fn kind(self) -> nat {
        match self {
            Token::Identifier(_) => 0,
            Token::Tint(_) => 1,
            Token::Tdouble(_) => 2,
            Token::Kif => 3,
            Token::Kthen => 4,
            Token::Kelse => 5,
            Token::Kfi => 6,
            Token::Kwhile => 7,
            Token::Kdo => 8,
            Token::Kod => 9,
            Token::Kdef => 10,
            Token::Kfed => 11,
            Token::Kreturn => 12,
            Token::Kand => 13,
            Token::Kor => 14,
            Token::Knot => 15,
            Token::Kint => 16,
            Token::Kdouble => 17,
            Token::Kprint => 18,
            Token::Oplus => 19,
            Token::Ominus => 20,
            Token::Omultiply => 21,
            Token::Odivide => 22,
            Token::Omod => 23,
            Token::Oassign => 24,
            Token::Oequal => 25,
            Token::Olt => 26,
            Token::Olte => 27,
            Token::Ogt => 28,
            Token::Ogte => 29,
            Token::Onot => 30,
            Token::Scomma => 31,
            Token::Ssemicolon => 32,
            Token::Speriod => 33,
            Token::Soparen => 34,
            Token::Scparen => 35,
            Token::Sobracket => 36,
            Token::Scbracket => 37,
        }
    }

    /// The text an identifier or a decimal literal carries.
    pub open spec fn name(self) -> Seq<char> {
        match self {
            Token::Identifier(s) => s@,
            Token::Tdouble(s) => s@,
            _ => Seq::empty(),
        }
    }

    /// The value an integer literal carries.
    pub open spec fn value(self) -> u32 {
        match self {
            Token::Tint(v) => v,
            _ => 0,
        }
    }

    /// The spelling of the token in source text.
    pub open spec fn spelling(self) -> Seq<char> {
        match self {
            Token::Identifier(s) => s@,
            Token::Tint(v) => decimal(v as nat),
            Token::Tdouble(s) => s@,
            Token::Kif => "if"@,
            Token::Kthen => "then"@,
            Token::Kelse => "else"@,
            Token::Kfi => "fi"@,
            Token::Kwhile => "while"@,
            Token::Kdo => "do"@,
            Token::Kod => "od"@,
            Token::Kdef => "def"@,
            Token::Kfed => "fed"@,
            Token::Kreturn => "return"@,
            Token::Kand => "and"@,
            Token::Kor => "or"@,
            Token::Knot => "not"@,
            Token::Kint => "int"@,
            Token::Kdouble => "double"@,
            Token::Kprint => "print"@,
            Token::Oplus => "+"@,
            Token::Ominus => "-"@,
            Token::Omultiply => "*"@,
            Token::Odivide => "/"@,
            Token::Omod => "%"@,
            Token::Oassign => "="@,
            Token::Oequal => "=="@,
            Token::Olt => "<"@,
            Token::Olte => "<="@,
            Token::Ogt => ">"@,
            Token::Ogte => ">="@,
            Token::Onot => "<>"@,
            Token::Scomma => ","@,
            Token::Ssemicolon => ";"@,
            Token::Speriod => "."@,
            Token::Soparen => "("@,
            Token::Scparen => ")"@,
            Token::Sobracket => "["@,
            Token::Scbracket => "]"@,
        }
    }

    /// Whether two tokens are of the same kind, whatever they carry.
    pub fn equals_type(&self, other: &Self) -> (r: bool)
        ensures
            r == (self.kind() == other.kind()),
    {
        self.to_index() == other.to_index()
    }

    /// The ordinal of the token's kind, used as a column index.
    pub fn to_index(&self) -> (i: usize)
        ensures
            i == self.kind(),
            i < NUM_TOKEN_KINDS,
    {
        match self {
            Token::Identifier(_) => 0,
            Token::Tint(_) => 1,
            Token::Tdouble(_) => 2,
            Token::Kif => 3,
            Token::Kthen => 4,
            Token::Kelse => 5,
            Token::Kfi => 6,
            Token::Kwhile => 7,
            Token::Kdo => 8,
            Token::Kod => 9,
            Token::Kdef => 10,
            Token::Kfed => 11,
            Token::Kreturn => 12,
            Token::Kand => 13,
            Token::Kor => 14,
            Token::Knot => 15,
            Token::Kint => 16,
            Token::Kdouble => 17,
            Token::Kprint => 18,
            Token::Oplus => 19,
            Token::Ominus => 20,
            Token::Omultiply => 21,
            Token::Odivide => 22,
            Token::Omod => 23,
            Token::Oassign => 24,
            Token::Oequal => 25,
            Token::Olt => 26,
            Token::Olte => 27,
            Token::Ogt => 28,
            Token::Ogte => 29,
            Token::Onot => 30,
            Token::Scomma => 31,
            Token::Ssemicolon => 32,
            Token::Speriod => 33,
            Token::Soparen => 34,
            Token::Scparen => 35,
            Token::Sobracket => 36,
            Token::Scbracket => 37,
        }
    }

    /// The spelling of the token in source text.
    pub fn to_string(&self) -> (s: String)
        ensures
            s@ == self.spelling(),
    {
        match self {
            Token::Identifier(s) => s.clone(),
            Token::Tint(v) => decimal_string(*v as u64),
            Token::Tdouble(s) => s.clone(),
            Token::Kif => String::from_str("if"),
            Token::Kthen => String::from_str("then"),
            Token::Kelse => String::from_str("else"),
            Token::Kfi => String::from_str("fi"),
            Token::Kwhile => String::from_str("while"),
            Token::Kdo => String::from_str("do"),
            Token::Kod => String::from_str("od"),
            Token::Kdef => String::from_str("def"),
            Token::Kfed => String::from_str("fed"),
            Token::Kreturn => String::from_str("return"),
            Token::Kand => String::from_str("and"),
            Token::Kor => String::from_str("or"),
            Token::Knot => String::from_str("not"),
            Token::Kint => String::from_str("int"),
            Token::Kdouble => String::from_str("double"),
            Token::Kprint => String::from_str("print"),
            Token::Oplus => String::from_str("+"),
            Token::Ominus => String::from_str("-"),
            Token::Omultiply => String::from_str("*"),
            Token::Odivide => String::from_str("/"),
            Token::Omod => String::from_str("%"),
            Token::Oassign => String::from_str("="),
            Token::Oequal => String::from_str("=="),
            Token::Olt => String::from_str("<"),
            Token::Olte => String::from_str("<="),
            Token::Ogt => String::from_str(">"),
            Token::Ogte => String::from_str(">="),
            Token::Onot => String::from_str("<>"),
            Token::Scomma => String::from_str(","),
            Token::Ssemicolon => String::from_str(";"),
            Token::Speriod => String::from_str("."),
            Token::Soparen => String::from_str("("),
            Token::Scparen => String::from_str(")"),
            Token::Sobracket => String::from_str("["),
            Token::Scbracket => String::from_str("]"),
        }
    }
}

impl Clone for Token {
    fn clone(&self) -> (r: Self)
        ensures
            r == *self,
    {
        match self {
            Token::Identifier(s) => Token::Identifier(s.clone()),
            Token::Tint(v) => Token::Tint(*v),
            Token::Tdouble(s) => Token::Tdouble(s.clone()),
            Token::Kif => Token::Kif,
            Token::Kthen => Token::Kthen,
            Token::Kelse => Token::Kelse,
            Token::Kfi => Token::Kfi,
            Token::Kwhile => Token::Kwhile,
            Token::Kdo => Token::Kdo,
            Token::Kod => Token::Kod,
            Token::Kdef => Token::Kdef,
            Token::Kfed => Token::Kfed,
            Token::Kreturn => Token::Kreturn,
            Token::Kand => Token::Kand,
            Token::Kor => Token::Kor,
            Token::Knot => Token::Knot,
            Token::Kint => Token::Kint,
            Token::Kdouble => Token::Kdouble,
            Token::Kprint => Token::Kprint,
            Token::Oplus => Token::Oplus,
            Token::Ominus => Token::Ominus,
            Token::Omultiply => Token::Omultiply,
            Token::Odivide => Token::Odivide,
            Token::Omod => Token::Omod,
            Token::Oassign => Token::Oassign,
            Token::Oequal => Token::Oequal,
            Token::Olt => Token::Olt,
            Token::Olte => Token::Olte,
            Token::Ogt => Token::Ogt,
            Token::Ogte => Token::Ogte,
            Token::Onot => Token::Onot,
            Token::Scomma => Token::Scomma,
            Token::Ssemicolon => Token::Ssemicolon,
            Token::Speriod => Token::Speriod,
            Token::Soparen => Token::Soparen,
            Token::Scparen => Token::Scparen,
            Token::Sobracket => Token::Sobracket,
            Token::Scbracket => Token::Scbracket,
        }
    }
}

/// A token with the line it was read on, counted from one.
#[derive(Debug, PartialEq)]
pub struct ParsedToken {
    pub token: Token,
    pub line: usize,
}

impl Clone for ParsedToken {
    fn clone(&self) -> (r: Self)
        ensures
            r == *self,
    {
        ParsedToken { token: self.token.clone(), line: self.line }
    }
}

/// Text that no token matches, with the line it was read on.
#[derive(Debug, PartialEq)]
pub struct InvalidToken {
    pub lexeme: String,
    pub line: usize,
}

/// How the lexical phase fails.
#[derive(Debug, PartialEq)]
pub enum LexicalError {
    FileOpenError(String),
    FileReadError(String),
    EmptyFile,
    EndOfFile,
    InvalidTokens(Vec<InvalidToken>),
    InvalidToken(InvalidToken),
    NoValidTokens,
    /// The automata of the lexical categories do not compose into a table.
    InvalidTable,
}

} // verus!
