//! The kinds of tokens of the chuda language.
use vstd::prelude::*;
use crate::text::{decimal, push_char, push_decimal, push_str, string_of};

verus! {

/// The kind of a token, with the text or value it carries.
#[derive(Debug, Clone, PartialEq)]
pub enum TokenType {
    Identifier(String),
    Integer(u64),
    Character(char),
    String(String),
    /// `(`
    LParen,
    /// `)`
    RParen,
    /// `[`
    LBracket,
    /// `]`
    RBracket,
    /// `{`
    LBrace,
    /// `}`
    RBrace,
    /// `<`
    LAngle,
    /// `>`
    RAngle,
    /// `;`
    Semicolon,
    /// `:`
    Colon,
    /// `+`
    Plus,
    /// `*`
    Times,
    /// `*>>`
    HighMultiplication,
    /// `-`
    Minus,
    /// `/`
    Divide,
    /// `%`
    Mod,
    /// `==`
    EQ,
    /// `!=`
    NE,
    /// `<=`
    LE,
    /// `>=`
    GE,
    /// `=`
    Assign,
    /// `&`
    And,
    /// `|`
    Or,
    /// `!`
    Exclamation,
    /// `.`
    Period,
    /// `,`
    Comma,
    /// `_`
    Underscore,
    /// `int`
    Int,
    /// `bool`
    Bool,
    /// `true`
    True,
    /// `false`
    False,
    /// `while`
    While,
    /// `use`
    Use,
    /// `if`
    If,
    /// `else`
    Else,
    /// `return`
    Return,
    /// `length`
    Length,
    Error(String),
    /// End of file
    Eof,
}

/// What a `TokenType` is, with its strings taken as character sequences.
pub enum TokenTypeView {
    Identifier(Seq<char>),
    Integer(u64),
    Character(char),
    String(Seq<char>),
    LParen,
    RParen,
    LBracket,
    RBracket,
    LBrace,
    RBrace,
    LAngle,
    RAngle,
    Semicolon,
    Colon,
    Plus,
    Times,
    HighMultiplication,
    Minus,
    Divide,
    Mod,
    EQ,
    NE,
    LE,
    GE,
    Assign,
    And,
    Or,
    Exclamation,
    Period,
    Comma,
    Underscore,
    Int,
    Bool,
    True,
    False,
    While,
    Use,
    If,
    Else,
    Return,
    Length,
    Error(Seq<char>),
    Eof,
}

impl View for TokenType {
    type V = TokenTypeView;

    open spec fn view(&self) -> TokenTypeView {
        match self {
            TokenType::Identifier(s) => TokenTypeView::Identifier(s@),
            TokenType::Integer(v) => TokenTypeView::Integer(*v),
            TokenType::Character(c) => TokenTypeView::Character(*c),
            TokenType::String(s) => TokenTypeView::String(s@),
            TokenType::LParen => TokenTypeView::LParen,
            TokenType::RParen => TokenTypeView::RParen,
            TokenType::LBracket => TokenTypeView::LBracket,
            TokenType::RBracket => TokenTypeView::RBracket,
            TokenType::LBrace => TokenTypeView::LBrace,
            TokenType::RBrace => TokenTypeView::RBrace,
            TokenType::LAngle => TokenTypeView::LAngle,
            TokenType::RAngle => TokenTypeView::RAngle,
            TokenType::Semicolon => TokenTypeView::Semicolon,
            TokenType::Colon => TokenTypeView::Colon,
            TokenType::Plus => TokenTypeView::Plus,
            TokenType::Times => TokenTypeView::Times,
            TokenType::HighMultiplication => TokenTypeView::HighMultiplication,
            TokenType::Minus => TokenTypeView::Minus,
            TokenType::Divide => TokenTypeView::Divide,
            TokenType::Mod => TokenTypeView::Mod,
            TokenType::EQ => TokenTypeView::EQ,
            TokenType::NE => TokenTypeView::NE,
            TokenType::LE => TokenTypeView::LE,
            TokenType::GE => TokenTypeView::GE,
            TokenType::Assign => TokenTypeView::Assign,
            TokenType::And => TokenTypeView::And,
            TokenType::Or => TokenTypeView::Or,
            TokenType::Exclamation => TokenTypeView::Exclamation,
            TokenType::Period => TokenTypeView::Period,
            TokenType::Comma => TokenTypeView::Comma,
            TokenType::Underscore => TokenTypeView::Underscore,
            TokenType::Int => TokenTypeView::Int,
            TokenType::Bool => TokenTypeView::Bool,
            TokenType::True => TokenTypeView::True,
            TokenType::False => TokenTypeView::False,
            TokenType::While => TokenTypeView::While,
            TokenType::Use => TokenTypeView::Use,
            TokenType::If => TokenTypeView::If,
            TokenType::Else => TokenTypeView::Else,
            TokenType::Return => TokenTypeView::Return,
            TokenType::Length => TokenTypeView::Length,
            TokenType::Error(s) => TokenTypeView::Error(s@),
            TokenType::Eof => TokenTypeView::Eof,
        }
    }
}

impl TokenTypeView {
    /// How a token of this kind is written out: `id <name>`, `integer <value>`,
    /// `character <c>`, `string <contents>`, the symbol or keyword itself,
    /// `error: <message>`, and nothing for the end of file.
    pub open spec fn display(self) -> Seq<char> {
        match self {
            TokenTypeView::Identifier(s) => "id "@ + s,
            TokenTypeView::Integer(v) => "integer "@ + decimal(v as nat),
            TokenTypeView::Character(c) => "character "@.push(c),
            TokenTypeView::String(s) => "string "@ + s,
            TokenTypeView::LParen => "("@,
            TokenTypeView::RParen => ")"@,
            TokenTypeView::LBracket => "["@,
            TokenTypeView::RBracket => "]"@,
            TokenTypeView::LBrace => "{"@,
            TokenTypeView::RBrace => "}"@,
            TokenTypeView::LAngle => "<"@,
            TokenTypeView::RAngle => ">"@,
            TokenTypeView::Semicolon => ";"@,
            TokenTypeView::Colon => ":"@,
            TokenTypeView::Plus => "+"@,
            TokenTypeView::Times => "*"@,
            TokenTypeView::HighMultiplication => "*>>"@,
            TokenTypeView::Minus => "-"@,
            TokenTypeView::Divide => "/"@,
            TokenTypeView::Mod => "%"@,
            TokenTypeView::EQ => "=="@,
            TokenTypeView::NE => "!="@,
            TokenTypeView::LE => "<="@,
            TokenTypeView::GE => ">="@,
            TokenTypeView::Assign => "="@,
            TokenTypeView::And => "&"@,
            TokenTypeView::Or => "|"@,
            TokenTypeView::Exclamation => "!"@,
            TokenTypeView::Period => "."@,
            TokenTypeView::Comma => ","@,
            TokenTypeView::Underscore => "_"@,
            TokenTypeView::Int => "int"@,
            TokenTypeView::Bool => "bool"@,
            TokenTypeView::True => "true"@,
            TokenTypeView::False => "false"@,
            TokenTypeView::While => "while"@,
            TokenTypeView::Use => "use"@,
            TokenTypeView::If => "if"@,
            TokenTypeView::Else => "else"@,
            TokenTypeView::Return => "return"@,
            TokenTypeView::Length => "length"@,
            TokenTypeView::Error(s) => "error: "@ + s,
            TokenTypeView::Eof => ""@,
        }
    }
}

impl TokenType {
    /// The text of this token kind as it is written out (see `TokenTypeView::display`).
    pub fn to_string(&self) -> (s: String)
        ensures
            s@ == self@.display(),
    {
        match self {
            TokenType::Identifier(id) => {
                let mut s = string_of("id ");
                push_str(&mut s, id.as_str());
                s
            },
            TokenType::Integer(val) => {
                let mut s = string_of("integer ");
                push_decimal(&mut s, *val);
                s
            },
            TokenType::Character(c) => {
                let mut s = string_of("character ");
                push_char(&mut s, *c);
                s
            },
            TokenType::String(literal) => {
                let mut s = string_of("string ");
                push_str(&mut s, literal.as_str());
                s
            },
            TokenType::LParen => string_of("("),
            TokenType::RParen => string_of(")"),
            TokenType::LBracket => string_of("["),
            TokenType::RBracket => string_of("]"),
            TokenType::LBrace => string_of("{"),
            TokenType::RBrace => string_of("}"),
            TokenType::LAngle => string_of("<"),
            TokenType::RAngle => string_of(">"),
            TokenType::Semicolon => string_of(";"),
            TokenType::Colon => string_of(":"),
            TokenType::Plus => string_of("+"),
            TokenType::Times => string_of("*"),
            TokenType::HighMultiplication => string_of("*>>"),
            TokenType::Minus => string_of("-"),
            TokenType::Divide => string_of("/"),
            TokenType::Mod => string_of("%"),
            TokenType::EQ => string_of("=="),
            TokenType::NE => string_of("!="),
            TokenType::LE => string_of("<="),
            TokenType::GE => string_of(">="),
            TokenType::Assign => string_of("="),
            TokenType::And => string_of("&"),
            TokenType::Or => string_of("|"),
            TokenType::Exclamation => string_of("!"),
            TokenType::Period => string_of("."),
            TokenType::Comma => string_of(","),
            TokenType::Underscore => string_of("_"),
            TokenType::Int => string_of("int"),
            TokenType::Bool => string_of("bool"),
            TokenType::True => string_of("true"),
            TokenType::False => string_of("false"),
            TokenType::While => string_of("while"),
            TokenType::Use => string_of("use"),
            TokenType::If => string_of("if"),
            TokenType::Else => string_of("else"),
            TokenType::Return => string_of("return"),
            TokenType::Length => string_of("length"),
            TokenType::Error(msg) => {
                let mut s = string_of("error: ");
                push_str(&mut s, msg.as_str());
                s
            },
            TokenType::Eof => string_of(""),
        }
    }
}

} // verus!
