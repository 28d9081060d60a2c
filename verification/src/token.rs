//! The lexical categories and the token value.

use vstd::prelude::*;
use crate::text::{push_char, str_equal};

verus! {

/// The closed set of lexical categories.
#[derive(Debug, Clone, Copy, PartialEq, Eq, PartialOrd, Ord, Structural)]
pub enum TokenType {
    Illegal,
    Eof,
    Ident,
    Int,
    Float,
    Assign,
    Plus,
    Minus,
    Bang,
    Asterisk,
    Slash,
    Lt,
    Gt,
    Eq,
    NotEq,
    Ge,
    Le,
    Comma,
    Semicolon,
    Lparen,
    Rparen,
    Lbrace,
    Rbrace,
    Function,
    Let,
    If,
    Return,
    Else,
    True,
    False,
}

impl Default for TokenType {
    fn default() -> (t: TokenType)
        ensures
            t == TokenType::Eof,
    {
        TokenType::Eof
    }
}

impl TokenType {
    /// The text a category is displayed as: the operator or keyword itself,
    /// or a lower-case word for the categories that carry their own text.
    pub open spec fn symbol_text(self) -> Seq<char> {
        match self {
            TokenType::Illegal => "illegal"@,
            TokenType::Eof => "EOF"@,
            TokenType::Ident => "ident"@,
            TokenType::Int => "int"@,
            TokenType::Float => "float"@,
            TokenType::Assign => "="@,
            TokenType::Plus => "+"@,
            TokenType::Minus => "-"@,
            TokenType::Bang => "!"@,
            TokenType::Asterisk => "*"@,
            TokenType::Slash => "/"@,
            TokenType::Lt => "<"@,
            TokenType::Gt => ">"@,
            TokenType::Eq => "=="@,
            TokenType::NotEq => "!="@,
            TokenType::Ge => ">="@,
            TokenType::Le => "<="@,
            TokenType::Comma => ","@,
            TokenType::Semicolon => ";"@,
            TokenType::Lparen => "("@,
            TokenType::Rparen => ")"@,
            TokenType::Lbrace => "{"@,
            TokenType::Rbrace => "}"@,
            TokenType::Function => "fn"@,
            TokenType::Let => "let"@,
            TokenType::If => "if"@,
            TokenType::Return => "return"@,
            TokenType::Else => "else"@,
            TokenType::True => "true"@,
            TokenType::False => "false"@,
        }
    }

    /// The display text of the category.
    pub fn symbol(&self) -> (s: &'static str)
        ensures
            s@ == self.symbol_text(),
    {
        match self {
            TokenType::Illegal => "illegal",
            TokenType::Eof => "EOF",
            TokenType::Ident => "ident",
            TokenType::Int => "int",
            TokenType::Float => "float",
            TokenType::Assign => "=",
            TokenType::Plus => "+",
            TokenType::Minus => "-",
            TokenType::Bang => "!",
            TokenType::Asterisk => "*",
            TokenType::Slash => "/",
            TokenType::Lt => "<",
            TokenType::Gt => ">",
            TokenType::Eq => "==",
            TokenType::NotEq => "!=",
            TokenType::Ge => ">=",
            TokenType::Le => "<=",
            TokenType::Comma => ",",
            TokenType::Semicolon => ";",
            TokenType::Lparen => "(",
            TokenType::Rparen => ")",
            TokenType::Lbrace => "{",
            TokenType::Rbrace => "}",
            TokenType::Function => "fn",
            TokenType::Let => "let",
            TokenType::If => "if",
            TokenType::Return => "return",
            TokenType::Else => "else",
            TokenType::True => "true",
            TokenType::False => "false",
        }
    }

    /// The name of the variant, as diagnostics print it.
    pub open spec fn name_text(self) -> Seq<char> {
        match self {
            TokenType::Illegal => "Illegal"@,
            TokenType::Eof => "Eof"@,
            TokenType::Ident => "Ident"@,
            TokenType::Int => "Int"@,
            TokenType::Float => "Float"@,
            TokenType::Assign => "Assign"@,
            TokenType::Plus => "Plus"@,
            TokenType::Minus => "Minus"@,
            TokenType::Bang => "Bang"@,
            TokenType::Asterisk => "Asterisk"@,
            TokenType::Slash => "Slash"@,
            TokenType::Lt => "Lt"@,
            TokenType::Gt => "Gt"@,
            TokenType::Eq => "Eq"@,
            TokenType::NotEq => "NotEq"@,
            TokenType::Ge => "Ge"@,
            TokenType::Le => "Le"@,
            TokenType::Comma => "Comma"@,
            TokenType::Semicolon => "Semicolon"@,
            TokenType::Lparen => "Lparen"@,
            TokenType::Rparen => "Rparen"@,
            TokenType::Lbrace => "Lbrace"@,
            TokenType::Rbrace => "Rbrace"@,
            TokenType::Function => "Function"@,
            TokenType::Let => "Let"@,
            TokenType::If => "If"@,
            TokenType::Return => "Return"@,
            TokenType::Else => "Else"@,
            TokenType::True => "True"@,
            TokenType::False => "False"@,
        }
    }

    /// The variant's name.
    pub fn name(&self) -> (s: &'static str)
        ensures
            s@ == self.name_text(),
    {
        match self {
            TokenType::Illegal => "Illegal",
            TokenType::Eof => "Eof",
            TokenType::Ident => "Ident",
            TokenType::Int => "Int",
            TokenType::Float => "Float",
            TokenType::Assign => "Assign",
            TokenType::Plus => "Plus",
            TokenType::Minus => "Minus",
            TokenType::Bang => "Bang",
            TokenType::Asterisk => "Asterisk",
            TokenType::Slash => "Slash",
            TokenType::Lt => "Lt",
            TokenType::Gt => "Gt",
            TokenType::Eq => "Eq",
            TokenType::NotEq => "NotEq",
            TokenType::Ge => "Ge",
            TokenType::Le => "Le",
            TokenType::Comma => "Comma",
            TokenType::Semicolon => "Semicolon",
            TokenType::Lparen => "Lparen",
            TokenType::Rparen => "Rparen",
            TokenType::Lbrace => "Lbrace",
            TokenType::Rbrace => "Rbrace",
            TokenType::Function => "Function",
            TokenType::Let => "Let",
            TokenType::If => "If",
            TokenType::Return => "Return",
            TokenType::Else => "Else",
            TokenType::True => "True",
            TokenType::False => "False",
        }
    }
}

/// The category of a word: its keyword kind, or `Ident` for any other text.
pub open spec fn keyword_or_ident(word: Seq<char>) -> TokenType {
    if word == "fn"@ {
        TokenType::Function
    } else if word == "let"@ {
        TokenType::Let
    } else if word == "if"@ {
        TokenType::If
    } else if word == "else"@ {
        TokenType::Else
    } else if word == "return"@ {
        TokenType::Return
    } else if word == "true"@ {
        TokenType::True
    } else if word == "false"@ {
        TokenType::False
    } else {
        TokenType::Ident
    }
}

/// Classifies a word as a keyword or an identifier.
pub fn lookup_ident(ident: String) -> (t: TokenType)
    ensures
        t == keyword_or_ident(ident@),
{
    let s = ident.as_str();
    if str_equal(s, "fn") {
        TokenType::Function
    } else if str_equal(s, "let") {
        TokenType::Let
    } else if str_equal(s, "if") {
        TokenType::If
    } else if str_equal(s, "else") {
        TokenType::Else
    } else if str_equal(s, "return") {
        TokenType::Return
    } else if str_equal(s, "true") {
        TokenType::True
    } else if str_equal(s, "false") {
        TokenType::False
    } else {
        TokenType::Ident
    }
}

/// A token as a mathematical value: its category and the characters of its
/// literal text.
pub struct TokenView {
    pub kind: TokenType,
    pub literal: Seq<char>,
}

/// One lexical unit: a category and the literal text it was read from.
#[derive(Debug)]
pub struct Token {
    pub token_type: TokenType,
    pub literal: String,
}

impl View for Token {
    type V = TokenView;

    open spec fn view(&self) -> TokenView {
        TokenView { kind: self.token_type, literal: self.literal@ }
    }
}

impl Clone for Token {
    fn clone(&self) -> (t: Token)
        ensures
            t@ == self@,
    {
        Token { token_type: self.token_type, literal: self.literal.clone() }
    }
}

impl Default for Token {
    fn default() -> (t: Token)
        ensures
            t@ == (TokenView { kind: TokenType::Eof, literal: Seq::<char>::empty() }),
    {
        Token { token_type: TokenType::Eof, literal: String::new() }
    }
}

impl PartialEq for Token {
    fn eq(&self, other: &Self) -> (r: bool) {
        self.literal == other.literal && self.token_type == other.token_type
    }
}

impl vstd::std_specs::cmp::PartialEqSpecImpl for Token {
    open spec fn obeys_eq_spec() -> bool {
        true
    }

    open spec fn eq_spec(&self, other: &Self) -> bool {
        self.literal@ == other.literal@ && self.token_type == other.token_type
    }
}

impl Token {
    /// A token whose literal is the single character `literal`.
    pub fn new_with_char(token_type: TokenType, literal: char) -> (t: Token)
        ensures
            t@ == (TokenView { kind: token_type, literal: seq![literal] }),
    {
        let mut text = String::new();
        push_char(&mut text, literal);
        Token { token_type, literal: text }
    }

    /// A token that takes ownership of `literal` as its text.
    pub fn new_with_string(token_type: TokenType, literal: String) -> (t: Token)
        ensures
            t.token_type == token_type,
            t.literal == literal,
    {
        Token { token_type, literal }
    }
}

} // verus!
