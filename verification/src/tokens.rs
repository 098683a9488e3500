//! Token kinds, tokens and their canonical text.

use crate::decimal::{push_signed_decimal, signed_decimal};
use crate::span::Span;
use vstd::prelude::*;

verus! {

/// The lexical categories of the language.
#[derive(Debug, Clone, PartialEq, Eq)]
pub enum TokenKind {
    // Keywords
    Val,
    Var,
    Fn,
    // Control flow
    If,
    Elif,
    Else,
    // Syntax
    LParen,
    RParen,
    LBracket,
    RBracket,
    LBrace,
    RBrace,
    Comma,
    Colon,
    Assign,
    // Operators
    Plus,
    Minus,
    Multiply,
    Exponent,
    Divide,
    Modulus,
    Equals,
    NotEquals,
    LessThan,
    GreaterThan,
    LessThanOrEqual,
    GreaterThanOrEqual,
    And,
    Or,
    Not,
    /// A variable or function name.
    Identifier(String),
    /// An integer literal.
    IntLiteral(isize),
    /// The end of the source text.
    Eof,
}

/// What a token kind stands for: a name by its characters, a literal by its
/// value, every other kind by itself.
pub ghost enum KindView {
    /// A keyword, a punctuation mark, an operator or the end marker.
    Symbol(TokenKind),
    Identifier(Seq<char>),
    IntLiteral(int),
}

impl View for TokenKind {
    type V = KindView;

    open spec fn view(&self) -> KindView {
        match self {
            TokenKind::Identifier(name) => KindView::Identifier(name@),
            TokenKind::IntLiteral(value) => KindView::IntLiteral(*value as int),
            kind => KindView::Symbol(*kind),
        }
    }
}

impl TokenKind {
    /// Whether the kind has one fixed spelling in source text: every kind
    /// but names, literals and the end marker.
    pub open spec fn is_fixed(&self) -> bool {
        !(self is Identifier) && !(self is IntLiteral) && !(self is Eof)
    }

    /// The canonical text of the kind: the symbol of a fixed kind, the name
    /// of an identifier, the decimal form of a literal, `EOF` for the end.
    pub open spec fn text(&self) -> Seq<char> {
        match self {
            TokenKind::Val => "val"@,
            TokenKind::Var => "var"@,
            TokenKind::Fn => "fn"@,
            TokenKind::If => "if"@,
            TokenKind::Elif => "elif"@,
            TokenKind::Else => "else"@,
            TokenKind::LParen => "("@,
            TokenKind::RParen => ")"@,
            TokenKind::LBracket => "["@,
            TokenKind::RBracket => "]"@,
            TokenKind::LBrace => "{"@,
            TokenKind::RBrace => "}"@,
            TokenKind::Comma => ","@,
            TokenKind::Colon => ":"@,
            TokenKind::Assign => "="@,
            TokenKind::Plus => "+"@,
            TokenKind::Minus => "-"@,
            TokenKind::Multiply => "*"@,
            TokenKind::Exponent => "^"@,
            TokenKind::Divide => "/"@,
            TokenKind::Modulus => "%"@,
            TokenKind::Equals => "=="@,
            TokenKind::NotEquals => "!="@,
            TokenKind::LessThan => "<"@,
            TokenKind::GreaterThan => ">"@,
            TokenKind::LessThanOrEqual => "<="@,
            TokenKind::GreaterThanOrEqual => ">="@,
            TokenKind::And => "&&"@,
            TokenKind::Or => "||"@,
            TokenKind::Not => "!"@,
            TokenKind::Identifier(name) => name@,
            TokenKind::IntLiteral(value) => signed_decimal(*value as int),
            TokenKind::Eof => "EOF"@,
        }
    }

    /// Renders the kind as its canonical text.
    pub fn to_string(&self) -> (s: String)
        ensures
            s@ == self.text(),
    {
        match self {
            TokenKind::Val => "val".to_owned(),
            TokenKind::Var => "var".to_owned(),
            TokenKind::Fn => "fn".to_owned(),
            TokenKind::If => "if".to_owned(),
            TokenKind::Elif => "elif".to_owned(),
            TokenKind::Else => "else".to_owned(),
            TokenKind::LParen => "(".to_owned(),
            TokenKind::RParen => ")".to_owned(),
            TokenKind::LBracket => "[".to_owned(),
            TokenKind::RBracket => "]".to_owned(),
            TokenKind::LBrace => "{".to_owned(),
            TokenKind::RBrace => "}".to_owned(),
            TokenKind::Comma => ",".to_owned(),
            TokenKind::Colon => ":".to_owned(),
            TokenKind::Assign => "=".to_owned(),
            TokenKind::Plus => "+".to_owned(),
            TokenKind::Minus => "-".to_owned(),
            TokenKind::Multiply => "*".to_owned(),
            TokenKind::Exponent => "^".to_owned(),
            TokenKind::Divide => "/".to_owned(),
            TokenKind::Modulus => "%".to_owned(),
            TokenKind::Equals => "==".to_owned(),
            TokenKind::NotEquals => "!=".to_owned(),
            TokenKind::LessThan => "<".to_owned(),
            TokenKind::GreaterThan => ">".to_owned(),
            TokenKind::LessThanOrEqual => "<=".to_owned(),
            TokenKind::GreaterThanOrEqual => ">=".to_owned(),
            TokenKind::And => "&&".to_owned(),
            TokenKind::Or => "||".to_owned(),
            TokenKind::Not => "!".to_owned(),
            TokenKind::Identifier(name) => name.clone(),
            TokenKind::IntLiteral(value) => {
                let mut s = String::new();
                push_signed_decimal(&mut s, *value);
                assert(s@ =~= signed_decimal(*value as int));
                s
            },
            TokenKind::Eof => "EOF".to_owned(),
        }
    }
}

/// The smallest classified unit of source text: a kind and the span it was
/// read from.
#[derive(Debug, Clone, PartialEq, Eq)]
pub struct Token {
    pub kind: TokenKind,
    pub pos: Span,
}

/// What a token stands for: the view of its kind, and its span.
pub ghost struct TokenView {
    pub kind: KindView,
    pub pos: Span,
}

impl View for Token {
    type V = TokenView;

    open spec fn view(&self) -> TokenView {
        TokenView { kind: self.kind@, pos: self.pos }
    }
}

impl Token {
    /// The canonical text of the token: that of its kind, a space, and its span.
    pub open spec fn text(&self) -> Seq<char> {
        self.kind.text() + seq![' '] + self.pos.text()
    }

    /// Construct a new token with the given type, start position, and size
    pub fn new(kind: TokenKind, start: usize, size: usize) -> (token: Self)
        requires
            start + size <= usize::MAX,
        ensures
            token.kind == kind,
            token.pos == (Span { start, end: (start + size) as usize }),
            token.pos.wf(),
    {
        Token { kind, pos: Span::new(start, start + size) }
    }

    /// Renders the token as its canonical text.
    pub fn to_string(&self) -> (s: String)
        ensures
            s@ == self.text(),
    {
        let mut s = self.kind.to_string();
        s.push(' ');
        self.pos.push_text(&mut s);
        s
    }
}

} // verus!
