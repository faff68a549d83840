use vstd::prelude::*;

verus! {

/// A lexical token. Identifiers, literals, symbols and comments carry their
/// source text; punctuation and keywords carry none.
#[derive(Debug, Clone, PartialEq, Eq)]
pub enum Token {
    Identifier(String),
    ClassIdentifier(String),
    NumberLiteral(i64),
    StringLiteral(String),
    BooleanLiteral(bool),
    Null,
    Symbol(String),
    LParan,
    RParan,
    LCurly,
    RCurly,
    LBracket,
    RBracket,
    Comma,
    Colon,
    DoubleColon,
    Dot,
    Arrow,
    Equal,
    SemiColon,
    NewLine,
    Hash,
    Comment(String),
    KwVar,
    KwFn,
    KwStatic,
    KwClass,
    KwOp,
    KwIf,
    KwReturn,
    KwImport,
    KwExport,
}

/// A token as a mathematical value: texts as character sequences, the number
/// as an unbounded integer.
#[verifier::ext_equal]
pub enum TokenV {
    Identifier(Seq<char>),
    ClassIdentifier(Seq<char>),
    NumberLiteral(int),
    StringLiteral(Seq<char>),
    BooleanLiteral(bool),
    Null,
    Symbol(Seq<char>),
    LParan,
    RParan,
    LCurly,
    RCurly,
    LBracket,
    RBracket,
    Comma,
    Colon,
    DoubleColon,
    Dot,
    Arrow,
    Equal,
    SemiColon,
    NewLine,
    Hash,
    Comment(Seq<char>),
    KwVar,
    KwFn,
    KwStatic,
    KwClass,
    KwOp,
    KwIf,
    KwReturn,
    KwImport,
    KwExport,
}

impl View for Token {
    type V = TokenV;

    open spec fn view(&self) -> TokenV {
        match self {
            Token::Identifier(s) => TokenV::Identifier(s@),
            Token::ClassIdentifier(s) => TokenV::ClassIdentifier(s@),
            Token::NumberLiteral(n) => TokenV::NumberLiteral(*n as int),
            Token::StringLiteral(s) => TokenV::StringLiteral(s@),
            Token::BooleanLiteral(b) => TokenV::BooleanLiteral(*b),
            Token::Null => TokenV::Null,
            Token::Symbol(s) => TokenV::Symbol(s@),
            Token::LParan => TokenV::LParan,
            Token::RParan => TokenV::RParan,
            Token::LCurly => TokenV::LCurly,
            Token::RCurly => TokenV::RCurly,
            Token::LBracket => TokenV::LBracket,
            Token::RBracket => TokenV::RBracket,
            Token::Comma => TokenV::Comma,
            Token::Colon => TokenV::Colon,
            Token::DoubleColon => TokenV::DoubleColon,
            Token::Dot => TokenV::Dot,
            Token::Arrow => TokenV::Arrow,
            Token::Equal => TokenV::Equal,
            Token::SemiColon => TokenV::SemiColon,
            Token::NewLine => TokenV::NewLine,
            Token::Hash => TokenV::Hash,
            Token::Comment(s) => TokenV::Comment(s@),
            Token::KwVar => TokenV::KwVar,
            Token::KwFn => TokenV::KwFn,
            Token::KwStatic => TokenV::KwStatic,
            Token::KwClass => TokenV::KwClass,
            Token::KwOp => TokenV::KwOp,
            Token::KwIf => TokenV::KwIf,
            Token::KwReturn => TokenV::KwReturn,
            Token::KwImport => TokenV::KwImport,
            Token::KwExport => TokenV::KwExport,
        }
    }
}

/// The views of all tokens of `s`, in order.
pub open spec fn view_tokens(s: Seq<Token>) -> Seq<TokenV> {
    s.map_values(|t: Token| t@)
}

} // verus!
