//! A token with the position where it was found.
use vstd::prelude::*;
use crate::text::{decimal, push_char, push_decimal, push_str};
use crate::token_type::{TokenType, TokenTypeView};

verus! {

/// A token of kind `token_type` found at `line`:`column`.
#[derive(Debug, Clone, PartialEq)]
pub struct Token {
    line: usize,
    column: usize,
    token_type: TokenType,
}

/// What a `Token` is: its position and the view of its kind.
pub struct TokenView {
    pub line: nat,
    pub column: nat,
    pub ty: TokenTypeView,
}

impl TokenView {
    /// How a token is written out: `<line>:<column> <kind>`.
    pub open spec fn display(self) -> Seq<char> {
        decimal(self.line) + ":"@ + decimal(self.column) + " "@ + self.ty.display()
    }
}

impl View for Token {
    type V = TokenView;

    closed spec fn view(&self) -> TokenView {
        TokenView { line: self.line as nat, column: self.column as nat, ty: self.token_type@ }
    }
}

impl Token {
    /// The token of kind `token_type` at `line`:`column`.
    pub fn new(line: usize, column: usize, token_type: TokenType) -> (t: Token)
        ensures
            t@ == (TokenView { line: line as nat, column: column as nat, ty: token_type@ }),
    {
        Token { line, column, token_type }
    }

    /// The kind of this token.
    pub fn token_type(&self) -> (t: &TokenType)
        ensures
            t@ == self@.ty,
    {
        &self.token_type
    }

    /// The text of this token as it is written out: `<line>:<column> <kind>`.
    pub fn to_string(&self) -> (s: String)
        ensures
            s@ == self@.display(),
    {
        let mut s = String::new();
        push_decimal(&mut s, self.line as u64);
        push_char(&mut s, ':');
        push_decimal(&mut s, self.column as u64);
        push_char(&mut s, ' ');
        let kind = self.token_type.to_string();
        push_str(&mut s, kind.as_str());
        proof {
            reveal_strlit(":");
            reveal_strlit(" ");
        }
        s
    }
}

} // verus!
