//! Lexing a whole text into a queue of tokens.
use std::collections::VecDeque;
use vstd::prelude::*;
use crate::scan_model::{ScanState, text_fits, lemma_next_token_advances};
use crate::token::{Token, TokenView};
use crate::token_scanner::TokenScanner;
use crate::token_type::{TokenType, TokenTypeView};

verus! {

/// The token that marks the end of the text, one column past the last character.
pub open spec fn eof_token(s: ScanState) -> TokenView {
    TokenView { line: s.line, column: s.column + 1, ty: TokenTypeView::Eof }
}

/// The tokens of the rest of a scan: every token up to and including the first error
/// token, or, when there is none, every token and then the end-of-file token.
pub open spec fn lex_tokens(s: ScanState) -> Seq<TokenView>
    decreases s.text.len() - s.pos,
{
    match s.next_token().1 {
        None => seq![eof_token(s.next_token().0)],
        Some(t) => if t.ty is Error {
            seq![t]
        } else {
            proof {
                lemma_next_token_advances(s);
            }
            seq![t] + lex_tokens(s.next_token().0)
        },
    }
}

/// The views of the tokens in `q`.
pub open spec fn tokens_view(q: Seq<Token>) -> Seq<TokenView> {
    q.map_values(|t: Token| t@)
}

/// Lexes texts into queues of tokens.
#[derive(Debug, Clone)]
pub struct Tokenizer {
    tokens: VecDeque<Token>,
}

impl View for Tokenizer {
    type V = Seq<TokenView>;

    closed spec fn view(&self) -> Seq<TokenView> {
        tokens_view(self.tokens@)
    }
}

impl Default for Tokenizer {
    fn default() -> (t: Tokenizer)
        ensures
            t@ == Seq::<TokenView>::empty(),
    {
        Tokenizer::new()
    }
}

impl Tokenizer {
    /// A tokenizer that holds no tokens yet.
    pub fn new() -> (t: Tokenizer)
        ensures
            t@ == Seq::<TokenView>::empty(),
    {
        let t = Tokenizer { tokens: VecDeque::new() };
        assert(t@ =~= Seq::<TokenView>::empty());
        t
    }

    /// Lexes `source_text` and returns the tokens this tokenizer held followed by those
    /// of the text: up to and including the first error token, or, without one, all of
    /// them and the end-of-file token.
    pub fn lex_file(self, source_text: &str) -> (tokens: VecDeque<Token>)
        requires
            text_fits(source_text@),
        ensures
            tokens_view(tokens@) == self@ + lex_tokens(ScanState::start(source_text@)),
    {
        let ghost held = self@;
        let mut tokens = self.tokens;
        assert(tokens_view(tokens@) == held);
        let mut scanner = TokenScanner::new(source_text);
        let ghost all = lex_tokens(ScanState::start(source_text@));
        assert(all == lex_tokens(scanner@));
        loop
            invariant
                tokens_view(tokens@) + lex_tokens(scanner@) == held + all,
                all == lex_tokens(ScanState::start(source_text@)),
                held == self@,
                scanner@.wf(),
            decreases scanner@.text.len() - scanner@.pos,
        {
            let ghost before = scanner@;
            let ghost old_tokens = tokens@;
            proof {
                lemma_next_token_advances(before);
            }
            match scanner.next_token() {
                None => {
                    let eof = Token::new(scanner.line(), scanner.column() + 1, TokenType::Eof);
                    tokens.push_back(eof);
                    assert(tokens_view(tokens@) =~= tokens_view(old_tokens) + lex_tokens(before));
                    return tokens;
                },
                Some(t) => {
                    let is_error = match t.token_type() {
                        TokenType::Error(_) => true,
                        _ => false,
                    };
                    tokens.push_back(t);
                    if is_error {
                        assert(tokens_view(tokens@) =~= tokens_view(old_tokens) + lex_tokens(before));
                        return tokens;
                    }
                    assert(tokens_view(tokens@) =~= tokens_view(old_tokens).push(t@));
                    assert(lex_tokens(before) == seq![t@] + lex_tokens(scanner@));
                    assert(tokens_view(tokens@) + lex_tokens(scanner@)
                        =~= tokens_view(old_tokens) + lex_tokens(before));
                },
            }
        }
    }
}

} // verus!
