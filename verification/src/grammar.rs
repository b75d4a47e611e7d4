//! The symbols of the chuda grammar, and the terminal that each token stands for.
use vstd::prelude::*;
use crate::text::{push_str, string_of};
use crate::token::Token;
use crate::token_type::{TokenType, TokenTypeView};

verus! {

/// A terminal symbol of the grammar: a kind of token, without its text or value.
#[derive(Debug, PartialEq, Eq, Hash, Structural)]
pub enum Terminal {
    Identifier,
    Integer,
    Character,
    String,
    LParen,
    RParen,
    LBracket,
    RBracket,
    LBrace,
    RBrace,
    LAngle,
    RAngle,
    Semicolon,
    Colon,
    Plus,
    Times,
    HighMultiplication,
    Minus,
    Divide,
    Mod,
    EQ,
    NE,
    LE,
    GE,
    Assign,
    And,
    Or,
    Exclamation,
    Period,
    Comma,
    Underscore,
    Int,
    Bool,
    True,
    False,
    While,
    Use,
    If,
    Else,
    Return,
    Length,
    Empty,
    /// End of file
    Eof,
}

/// A nonterminal symbol of the grammar.
#[derive(Debug, PartialEq, Eq, Hash, Structural)]
pub enum NonTerminal {
    File,
    ProgramFile,
    InterfaceFile,
    FunctionDeclarationList,
    UseList,
    GlobalDeclarationList,
    GlobalDeclaration,
    ScalarTypeID,
    GlobalInit,
    FunctionDeclaration,
    ParamListOpt,
    ParamList,
    ReturnType,
    TypeList,
    TypedIDList,
    TypedId,
    Type,
    Primitive,
    ArrayDeclaration,
    Block,
    StatementList,
    Statement,
    VarDeclaration,
    ElseOpt,
    LastStatementOpt,
    AssignableList,
    Assignable,
    Target,
    FunctionCall,
    ExprListOpt,
    ExprList,
    ExprOpt,
    Condition,
    Conjuction,
    Equality,
    EqualityOp,
    Relation,
    RelationOp,
    Expr,
    ExprOp,
    Term,
    TermOp,
    Unary,
    UnaryOp,
    Factor,
    Atom,
    ArrayLiteral,
    OptSemi,
}

/// A symbol of the grammar.
#[derive(Debug, PartialEq, Eq, Hash, Structural)]
pub enum Symbol {
    NT(NonTerminal),
    T(Terminal),
}

/// A production of the grammar: `lhs` derives the symbols `rhs`.
#[derive(Debug, PartialEq, Eq, Hash)]
pub struct Production {
    pub lhs: Symbol,
    pub rhs: Vec<Symbol>,
}

/// The message for an error token met while parsing.
pub open spec fn parse_error_message(msg: Seq<char>) -> Seq<char> {
    "Got Unexpected Error Token in Parsing: "@ + msg
}

/// The terminal that a token of kind `ty` stands for; an error token stands for none.
pub open spec fn terminal_of(ty: TokenTypeView) -> Result<Terminal, Seq<char>> {
    match ty {
        TokenTypeView::Identifier(_) => Ok(Terminal::Identifier),
        TokenTypeView::Integer(_) => Ok(Terminal::Integer),
        TokenTypeView::Character(_) => Ok(Terminal::Character),
        TokenTypeView::String(_) => Ok(Terminal::String),
        TokenTypeView::LParen => Ok(Terminal::LParen),
        TokenTypeView::RParen => Ok(Terminal::RParen),
        TokenTypeView::LBracket => Ok(Terminal::LBracket),
        TokenTypeView::RBracket => Ok(Terminal::RBracket),
        TokenTypeView::LBrace => Ok(Terminal::LBrace),
        TokenTypeView::RBrace => Ok(Terminal::RBrace),
        TokenTypeView::LAngle => Ok(Terminal::LAngle),
        TokenTypeView::RAngle => Ok(Terminal::RAngle),
        TokenTypeView::Semicolon => Ok(Terminal::Semicolon),
        TokenTypeView::Colon => Ok(Terminal::Colon),
        TokenTypeView::Plus => Ok(Terminal::Plus),
        TokenTypeView::Times => Ok(Terminal::Times),
        TokenTypeView::HighMultiplication => Ok(Terminal::HighMultiplication),
        TokenTypeView::Minus => Ok(Terminal::Minus),
        TokenTypeView::Divide => Ok(Terminal::Divide),
        TokenTypeView::Mod => Ok(Terminal::Mod),
        TokenTypeView::EQ => Ok(Terminal::EQ),
        TokenTypeView::NE => Ok(Terminal::NE),
        TokenTypeView::LE => Ok(Terminal::LE),
        TokenTypeView::GE => Ok(Terminal::GE),
        TokenTypeView::Assign => Ok(Terminal::Assign),
        TokenTypeView::And => Ok(Terminal::And),
        TokenTypeView::Or => Ok(Terminal::Or),
        TokenTypeView::Exclamation => Ok(Terminal::Exclamation),
        TokenTypeView::Period => Ok(Terminal::Period),
        TokenTypeView::Comma => Ok(Terminal::Comma),
        TokenTypeView::Underscore => Ok(Terminal::Underscore),
        TokenTypeView::Int => Ok(Terminal::Int),
        TokenTypeView::Bool => Ok(Terminal::Bool),
        TokenTypeView::True => Ok(Terminal::True),
        TokenTypeView::False => Ok(Terminal::False),
        TokenTypeView::While => Ok(Terminal::While),
        TokenTypeView::Use => Ok(Terminal::Use),
        TokenTypeView::If => Ok(Terminal::If),
        TokenTypeView::Else => Ok(Terminal::Else),
        TokenTypeView::Return => Ok(Terminal::Return),
        TokenTypeView::Length => Ok(Terminal::Length),
        TokenTypeView::Eof => Ok(Terminal::Eof),
        TokenTypeView::Error(msg) => Err(parse_error_message(msg)),
    }
}

/// The view of a conversion's result.
pub open spec fn terminal_result_view(r: Result<Terminal, String>) -> Result<Terminal, Seq<char>> {
    match r {
        Ok(t) => Ok(t),
        Err(msg) => Err(msg@),
    }
}

impl Terminal {
    /// The terminal that `item` stands for, or, for an error token, a message that
    /// carries the token's own message.
    pub fn try_from(item: Token) -> (r: Result<Terminal, String>)
        ensures
            terminal_result_view(r) == terminal_of(item@.ty),
    {
        match item.token_type() {
            TokenType::Identifier(_) => Ok(Terminal::Identifier),
            TokenType::Integer(_) => Ok(Terminal::Integer),
            TokenType::Character(_) => Ok(Terminal::Character),
            TokenType::String(_) => Ok(Terminal::String),
            TokenType::LParen => Ok(Terminal::LParen),
            TokenType::RParen => Ok(Terminal::RParen),
            TokenType::LBracket => Ok(Terminal::LBracket),
            TokenType::RBracket => Ok(Terminal::RBracket),
            TokenType::LBrace => Ok(Terminal::LBrace),
            TokenType::RBrace => Ok(Terminal::RBrace),
            TokenType::LAngle => Ok(Terminal::LAngle),
            TokenType::RAngle => Ok(Terminal::RAngle),
            TokenType::Semicolon => Ok(Terminal::Semicolon),
            TokenType::Colon => Ok(Terminal::Colon),
            TokenType::Plus => Ok(Terminal::Plus),
            TokenType::Times => Ok(Terminal::Times),
            TokenType::HighMultiplication => Ok(Terminal::HighMultiplication),
            TokenType::Minus => Ok(Terminal::Minus),
            TokenType::Divide => Ok(Terminal::Divide),
            TokenType::Mod => Ok(Terminal::Mod),
            TokenType::EQ => Ok(Terminal::EQ),
            TokenType::NE => Ok(Terminal::NE),
            TokenType::LE => Ok(Terminal::LE),
            TokenType::GE => Ok(Terminal::GE),
            TokenType::Assign => Ok(Terminal::Assign),
            TokenType::And => Ok(Terminal::And),
            TokenType::Or => Ok(Terminal::Or),
            TokenType::Exclamation => Ok(Terminal::Exclamation),
            TokenType::Period => Ok(Terminal::Period),
            TokenType::Comma => Ok(Terminal::Comma),
            TokenType::Underscore => Ok(Terminal::Underscore),
            TokenType::Int => Ok(Terminal::Int),
            TokenType::Bool => Ok(Terminal::Bool),
            TokenType::True => Ok(Terminal::True),
            TokenType::False => Ok(Terminal::False),
            TokenType::While => Ok(Terminal::While),
            TokenType::Use => Ok(Terminal::Use),
            TokenType::If => Ok(Terminal::If),
            TokenType::Else => Ok(Terminal::Else),
            TokenType::Return => Ok(Terminal::Return),
            TokenType::Length => Ok(Terminal::Length),
            TokenType::Eof => Ok(Terminal::Eof),
            TokenType::Error(msg) => {
                let mut m = string_of("Got Unexpected Error Token in Parsing: ");
                push_str(&mut m, msg.as_str());
                Err(m)
            },
        }
    }
}

} // verus!
