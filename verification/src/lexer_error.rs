//! Why lexing a text failed.
use vstd::prelude::*;

verus! {

/// A failure to lex a text: the message of the error token it ended with.
#[derive(Debug)]
pub enum LexerError {
    ErrorToken(String),
}

impl View for LexerError {
    type V = Seq<char>;

    open spec fn view(&self) -> Seq<char> {
        match self {
            LexerError::ErrorToken(msg) => msg@,
        }
    }
}

impl LexerError {
    /// The message of this error, as it is written out.
    pub fn to_string(&self) -> (s: String)
        ensures
            s@ == self@,
    {
        match self {
            LexerError::ErrorToken(e) => e.clone(),
        }
    }
}

} // verus!
