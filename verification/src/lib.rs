//! A lexer for the chuda programming language, with the file-name rules of its
//! compiler drivers and the terminal symbols of its grammar.
use std::collections::VecDeque;
use vstd::prelude::*;

pub mod text;
pub mod token_type;
pub mod token;
pub mod scan_model;
pub mod token_scanner;
pub mod tokenizer;
pub mod lexer_error;
pub mod source_files;
pub mod chuda_files;
pub mod eta_files;
pub mod grammar;
pub mod cli;
pub mod laws;

pub use lexer_error::LexerError;
pub use token::Token;
pub use token_type::TokenType;
pub use tokenizer::Tokenizer;

use scan_model::{ScanState, text_fits};
use token::TokenView;
use tokenizer::{lex_tokens, tokens_view};

verus! {

/// The message of the error token that `tokens` ends with, if it ends with one.
pub open spec fn final_error(tokens: Seq<TokenView>) -> Option<Seq<char>> {
    if tokens.len() > 0 {
        match tokens.last().ty {
            token_type::TokenTypeView::Error(msg) => Some(msg),
            _ => None,
        }
    } else {
        None
    }
}

/// The messages of the error tokens that the token sequences in `queues` end with, in order.
pub open spec fn error_messages(queues: Seq<Seq<TokenView>>) -> Seq<Seq<char>>
    decreases queues.len(),
{
    if queues.len() == 0 {
        Seq::empty()
    } else {
        let rest = error_messages(queues.drop_last());
        match final_error(queues.last()) {
            Some(msg) => rest.push(msg),
            None => rest,
        }
    }
}

/// The tokens of each text in `source_texts`.
pub open spec fn lexed_texts(source_texts: Seq<String>) -> Seq<Seq<TokenView>> {
    source_texts.map_values(|s: String| lex_tokens(ScanState::start(s@)))
}

/// Lexes each of `source_texts` into a queue of tokens (see `Tokenizer::lex_file`), and
/// reports, in order, the message of every queue that ends with an error token; the
/// report is `None` when no queue does.
pub fn lex_files(source_texts: &[String]) -> (r: (Vec<VecDeque<Token>>, Option<Vec<LexerError>>))
    requires
        forall|i: int| 0 <= i < source_texts@.len() ==> text_fits(#[trigger] source_texts@[i]@),
    ensures
        r.0@.len() == source_texts@.len(),
        forall|i: int| 0 <= i < r.0@.len() ==>
            tokens_view(#[trigger] r.0@[i]@) == lexed_texts(source_texts@)[i],
        forall|i: int| 0 <= i < r.0@.len() ==>
            tokens_view(#[trigger] r.0@[i]@) == lex_tokens(ScanState::start(source_texts@[i]@)),
        r.1 is None <==> error_messages(lexed_texts(source_texts@)).len() == 0,
        r.1 matches Some(errs) ==> errs@.map_values(|e: LexerError| e@) == error_messages(lexed_texts(source_texts@)),
{
    let mut err_vec: Vec<LexerError> = Vec::new();
    let mut token_queues: Vec<VecDeque<Token>> = Vec::new();
    let ghost all = lexed_texts(source_texts@);
    let mut i: usize = 0;
    while i < source_texts.len()
        invariant
            0 <= i <= source_texts@.len(),
            all == lexed_texts(source_texts@),
            forall|j: int| 0 <= j < source_texts@.len() ==> text_fits(#[trigger] source_texts@[j]@),
            token_queues@.len() == i,
            forall|j: int| 0 <= j < i ==> tokens_view(#[trigger] token_queues@[j]@) == all[j],
            err_vec@.map_values(|e: LexerError| e@) == error_messages(all.take(i as int)),
        decreases source_texts@.len() - i,
    {
        let tokenizer = Tokenizer::new();
        let q = tokenizer.lex_file(source_texts[i].as_str());
        let ghost old_errs = err_vec@;
        let n = q.len();
        assert(all.take(i + 1).drop_last() =~= all.take(i as int));
        assert(all.take(i + 1).last() == tokens_view(q@));
        if n > 0 {
            assert(tokens_view(q@).last() == q@[n - 1]@);
            match q[n - 1].token_type() {
                TokenType::Error(msg) => {
                    err_vec.push(LexerError::ErrorToken(msg.clone()));
                    assert(err_vec@.map_values(|e: LexerError| e@) =~= old_errs.map_values(|e: LexerError| e@).push(msg@));
                },
                _ => {},
            }
        }
        token_queues.push(q);
        i = i + 1;
    }
    assert(all.take(source_texts@.len() as int) =~= all);
    if err_vec.len() > 0 {
        return (token_queues, Some(err_vec));
    }
    (token_queues, None)
}

} // verus!
