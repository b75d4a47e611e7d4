//! Properties of scanning and lexing that hold across calls.
use vstd::prelude::*;
use crate::scan_model::{
    ScanState, digits_end, ident_end, is_digit, is_ident_char, is_whitespace, whitespace_end,
    comment_end, rest_is_blank, lemma_comment_end_bounds, is_alpha, keyword_or_identifier,
    hex_digit_value, hex_value, is_hex_digit, decimal_value, simple_escape, lemma_consume_advances,
    lemma_escape_advances, lemma_next_token_advances, lemma_skip_comment_advances,
    lemma_skip_whitespace_advances,
};
use crate::token::TokenView;
use crate::token_type::TokenTypeView;
use crate::tokenizer::lex_tokens;
use crate::lexed_texts;
use crate::text::{decimal, digit_char, ends_with};
use crate::grammar::{Terminal, terminal_of};
use crate::cli::{ArgsError, ConfigView, Task, empty_config, parse_from, parsed_args, task_of};

verus! {

proof fn lemma_string_body_token(s: ScanState, contents: Seq<char>, start_col: nat)
    ensures
        !(s.string_body(contents, start_col).1.ty is Eof),
        s.string_body(contents, start_col).1.column == start_col,
        s.string_body(contents, start_col).1.line == s.string_body(contents, start_col).0.line,
    decreases s.text.len() - s.pos,
{
    let s1 = s.consume().0;
    if let Some(c) = s.consume().1 {
        if c == '\\' {
            lemma_escape_advances(s1);
            if let Ok(v) = s1.escape().1 {
                lemma_string_body_token(s1.escape().0, contents.push(v), start_col);
            }
        } else if c != '"' {
            lemma_string_body_token(s1, contents.push(c), start_col);
        }
    }
}

/// The token that starts with `c` is never the end-of-file token; it stands at the
/// column of `c` and at the line where its last character is.
proof fn lemma_lex_after_token(s: ScanState, c: char)
    ensures
        !(s.lex_after(c).1.ty is Eof),
        s.lex_after(c).1.column == s.column,
        s.lex_after(c).1.line == s.lex_after(c).0.line,
{
    lemma_string_body_token(s, Seq::empty(), s.column);
}

/// The scanner never yields the end-of-file token; a token it yields stands at the
/// column of its first character and at the line where its last character is.
pub proof fn law_next_token_position(s: ScanState)
    ensures
        s.next_token().1 matches Some(t) ==> {
            &&& !(t.ty is Eof)
            &&& t.column == s.token_start().column
            &&& t.line == s.next_token().0.line
        },
    decreases s.text.len() - s.pos,
{
    let s1 = s.skip_whitespace();
    let s2 = s1.consume().0;
    if let Some(c) = s1.consume().1 {
        if c == '/' {
            if s2.peek() == Some('/') {
                lemma_skip_whitespace_advances(s);
                lemma_consume_advances(s1);
                lemma_skip_comment_advances(s2);
                law_next_token_position(s2.skip_comment());
            }
        } else {
            lemma_lex_after_token(s2, c);
        }
    }
}

/// The scanner yields no token only at the end of the text, and from there on it
/// yields none again and stays where it is.
pub proof fn law_next_token_none_at_end(s: ScanState)
    requires
        s.next_token().1 is None,
    ensures
        s.next_token().0.at_end(),
        s.next_token().0.next_token() == (s.next_token().0, None::<TokenView>),
    decreases s.text.len() - s.pos,
{
    let s1 = s.skip_whitespace();
    let s2 = s1.consume().0;
    match s1.consume().1 {
        None => {
            let e = s.next_token().0;
            assert(e.skip_whitespace() == e);
        },
        Some(c) => {
            lemma_skip_whitespace_advances(s);
            lemma_consume_advances(s1);
            lemma_skip_comment_advances(s2);
            law_next_token_none_at_end(s2.skip_comment());
        },
    }
}

/// A lexed text is a nonempty run of tokens that ends with an error token or the
/// end-of-file token, and has neither before its end.
pub proof fn law_lex_tokens_shape(s: ScanState)
    ensures
        lex_tokens(s).len() >= 1,
        lex_tokens(s).last().ty is Error || lex_tokens(s).last().ty is Eof,
        forall|i: int| 0 <= i < lex_tokens(s).len() - 1 ==>
            !(#[trigger] lex_tokens(s)[i].ty is Error) && !(lex_tokens(s)[i].ty is Eof),
    decreases s.text.len() - s.pos,
{
    law_next_token_position(s);
    if let Some(t) = s.next_token().1 {
        if !(t.ty is Error) {
            lemma_next_token_advances(s);
            let rest = lex_tokens(s.next_token().0);
            law_lex_tokens_shape(s.next_token().0);
            assert(lex_tokens(s) == seq![t] + rest);
            assert forall|i: int| 0 <= i < lex_tokens(s).len() - 1 implies
                !(#[trigger] lex_tokens(s)[i].ty is Error) && !(lex_tokens(s)[i].ty is Eof) by {
                if i > 0 {
                    assert(lex_tokens(s)[i] == rest[i - 1]);
                }
            }
        }
    }
}

/// The state of a scan after `k` further calls of the scanner.
pub open spec fn after_tokens(s: ScanState, k: nat) -> ScanState
    decreases k,
{
    if k == 0 {
        s
    } else {
        after_tokens(s.next_token().0, (k - 1) as nat)
    }
}

/// The `k`-th lexed token is what the `k`-th call of the scanner yields; where the
/// scanner yields nothing, it is the end-of-file token one column past the end. So no
/// token the scanner yields before the first error is left out, and none is added.
pub proof fn law_lex_tokens_are_scanner_tokens(s: ScanState, k: nat)
    requires
        k < lex_tokens(s).len(),
    ensures
        lex_tokens(s)[k as int].ty is Eof ==> after_tokens(s, k).next_token().1 is None
            && lex_tokens(s)[k as int] == (TokenView {
                line: after_tokens(s, k).next_token().0.line,
                column: after_tokens(s, k).next_token().0.column + 1,
                ty: TokenTypeView::Eof,
            }),
        !(lex_tokens(s)[k as int].ty is Eof) ==> after_tokens(s, k).next_token().1 == Some(
            lex_tokens(s)[k as int],
        ),
    decreases k,
{
    law_next_token_position(s);
    if k > 0 {
        if let Some(t) = s.next_token().1 {
            if !(t.ty is Error) {
                lemma_next_token_advances(s);
                let rest = lex_tokens(s.next_token().0);
                assert(lex_tokens(s) == seq![t] + rest);
                assert(lex_tokens(s)[k as int] == rest[k - 1]);
                law_lex_tokens_are_scanner_tokens(s.next_token().0, (k - 1) as nat);
            }
        }
    }
}

/// A carriage return followed by a line feed is consumed as one line feed: both
/// characters go, and the line ends.
pub proof fn law_crlf_reads_as_line_feed(s: ScanState)
    requires
        s.pos + 1 < s.text.len(),
        s.text[s.pos as int] == '\r',
        s.text[s.pos + 1 as int] == '\n',
    ensures
        s.consume().1 == Some('\n'),
        s.consume().0.pos == s.pos + 2,
        s.consume().0.line == s.line + 1,
        s.consume().0.column == 0,
{
}

proof fn lemma_ident_run(text: Seq<char>, from: nat)
    requires
        from <= text.len(),
    ensures
        from <= ident_end(text, from) <= text.len(),
        forall|i: int| from <= i < ident_end(text, from) ==> is_ident_char(#[trigger] text[i]),
        ident_end(text, from) < text.len() ==> !is_ident_char(text[ident_end(text, from) as int]),
    decreases text.len() - from,
{
    if from < text.len() && is_ident_char(text[from as int]) {
        lemma_ident_run(text, from + 1);
    }
}

proof fn lemma_digit_run(text: Seq<char>, from: nat)
    requires
        from <= text.len(),
    ensures
        from <= digits_end(text, from) <= text.len(),
        forall|i: int| from <= i < digits_end(text, from) ==> is_digit(#[trigger] text[i]),
        digits_end(text, from) < text.len() ==> !is_digit(text[digits_end(text, from) as int]),
    decreases text.len() - from,
{
    if from < text.len() && is_digit(text[from as int]) {
        lemma_digit_run(text, from + 1);
    }
}

/// Identifiers and keywords are read with maximal munch: every character consumed is
/// an identifier character, and the next one is not.
pub proof fn law_identifier_is_maximal(s: ScanState)
    requires
        s.pos <= s.text.len(),
    ensures
        forall|i: int| s.pos <= i < s.lex_key_or_identifier().0.pos ==> is_ident_char(#[trigger] s.text[i]),
        s.lex_key_or_identifier().0.peek() matches Some(c) ==> !is_ident_char(c),
{
    lemma_ident_run(s.text, s.pos);
}

/// Integers are read with maximal munch: every character consumed is a digit, and the
/// next one is not.
pub proof fn law_integer_is_maximal(s: ScanState)
    requires
        s.pos <= s.text.len(),
    ensures
        forall|i: int| s.pos <= i < s.lex_integer().0.pos ==> is_digit(#[trigger] s.text[i]),
        s.lex_integer().0.peek() matches Some(c) ==> !is_digit(c),
{
    lemma_digit_run(s.text, s.pos);
}

/// Skipping whitespace stops at the end of the text or before a character that is not
/// whitespace.
pub proof fn law_whitespace_is_skipped(s: ScanState)
    ensures
        s.skip_whitespace().peek() matches Some(c) ==> !is_whitespace(c),
    decreases s.text.len() - s.pos,
{
    if let Some(c) = s.peek() {
        if is_whitespace(c) {
            law_whitespace_is_skipped(s.consume().0);
        }
    }
}

/// A comment runs to the end of its line: skipping it stops at the end of the text or
/// just after a line feed (a carriage return and line feed count as one).
pub proof fn law_comment_ends_at_line_end(s: ScanState)
    requires
        s.pos <= s.text.len(),
    ensures
        s.skip_comment().at_end() || s.skip_comment().text[s.skip_comment().pos - 1] == '\n',
    decreases s.text.len() - s.pos,
{
    if let Some(c) = s.consume().1 {
        if c != '\n' {
            law_comment_ends_at_line_end(s.consume().0);
        }
    }
}

/// At the end of the text there is no next token, and the scan stays where it is.
pub proof fn law_no_token_at_end(s: ScanState)
    requires
        s.at_end(),
    ensures
        s.next_token() == (s, None::<TokenView>),
{
    assert(s.skip_whitespace() == s);
}

proof fn lemma_skip_whitespace_end(s: ScanState)
    requires
        s.pos <= s.text.len(),
    ensures
        s.skip_whitespace().pos == whitespace_end(s.text, s.pos),
        s.skip_whitespace().text == s.text,
    decreases s.text.len() - s.pos,
{
    if let Some(c) = s.peek() {
        if is_whitespace(c) {
            let n = s.consume().0;
            lemma_skip_whitespace_end(n);
            if n.pos == s.pos + 2 {
                assert(whitespace_end(s.text, s.pos + 1) == whitespace_end(s.text, s.pos + 2));
            }
        }
    }
}

proof fn lemma_skip_comment_end(s: ScanState)
    requires
        s.pos <= s.text.len(),
    ensures
        s.skip_comment().pos == comment_end(s.text, s.pos),
        s.skip_comment().text == s.text,
    decreases s.text.len() - s.pos,
{
    let n = s.consume().0;
    if let Some(c) = s.consume().1 {
        if c != '\n' {
            lemma_skip_comment_end(n);
        } else if n.pos == s.pos + 2 {
            assert(comment_end(s.text, s.pos + 1) == s.pos + 2);
        }
    }
}

proof fn lemma_blank_after_whitespace(text: Seq<char>, i: nat)
    ensures
        rest_is_blank(text, i) == rest_is_blank(text, whitespace_end(text, i)),
    decreases text.len() - i,
{
    if i < text.len() && is_whitespace(text[i as int]) {
        lemma_blank_after_whitespace(text, i + 1);
    }
}

/// The scanner yields no token exactly when the rest of the text holds only whitespace
/// and `//` comments (each running to just after the next line feed, or to the end).
pub proof fn law_no_token_iff_blank(s: ScanState)
    requires
        s.pos <= s.text.len(),
    ensures
        s.next_token().1 is None <==> rest_is_blank(s.text, s.pos),
    decreases s.text.len() - s.pos,
{
    let s1 = s.skip_whitespace();
    let s2 = s1.consume().0;
    lemma_skip_whitespace_end(s);
    lemma_blank_after_whitespace(s.text, s.pos);
    let w = s1.pos;
    law_whitespace_is_skipped(s);
    if let Some(c) = s1.consume().1 {
        if c == '/' && s2.peek() == Some('/') {
            lemma_skip_comment_end(s2);
            lemma_comment_end_bounds(s.text, w + 2);
            assert(comment_end(s.text, w + 1) == comment_end(s.text, w + 2));
            lemma_skip_whitespace_advances(s);
            lemma_consume_advances(s1);
            lemma_skip_comment_advances(s2);
            law_no_token_iff_blank(s2.skip_comment());
        }
    }
}

/// Token kinds written always the same way: all but identifiers, integers, characters,
/// strings, errors and the end of file.
pub open spec fn has_fixed_spelling(t: TokenTypeView) -> bool {
    !(t is Identifier || t is Integer || t is Character || t is String || t is Error || t is Eof)
}

/// Scanning a word of letters gives the keyword or identifier it spells, at line 1,
/// column 1, and leaves nothing behind.
proof fn lemma_word_round_trip(word: Seq<char>)
    requires
        1 <= word.len() <= 6,
        forall|i: int| 0 <= i < word.len() ==> is_alpha(#[trigger] word[i]),
    ensures
        ScanState::start(word).next_token().1 == Some(
            TokenView { line: 1, column: 1, ty: keyword_or_identifier(word) },
        ),
        ScanState::start(word).next_token().0.at_end(),
{
    let s = ScanState::start(word);
    assert(s.skip_whitespace() == s);
    lemma_ident_run(word, 1);
    assert(ident_end(word, 1) == word.len());
    assert(word.subrange(0, word.len() as int) =~= word);
}

proof fn lemma_symbol_round_trip(t: TokenTypeView)
    requires
        has_fixed_spelling(t),
        !(t is Int || t is Bool || t is True || t is False || t is While || t is Use || t is If
            || t is Else || t is Return || t is Length),
    ensures
        ScanState::start(t.display()).next_token().1 == Some(TokenView { line: 1, column: 1, ty: t }),
        ScanState::start(t.display()).next_token().0.at_end(),
{
    let s = ScanState::start(t.display());
    match t {
        TokenTypeView::LParen => {
            reveal_strlit("(");
        },
        TokenTypeView::RParen => {
            reveal_strlit(")");
        },
        TokenTypeView::LBracket => {
            reveal_strlit("[");
        },
        TokenTypeView::RBracket => {
            reveal_strlit("]");
        },
        TokenTypeView::LBrace => {
            reveal_strlit("{");
        },
        TokenTypeView::RBrace => {
            reveal_strlit("}");
        },
        TokenTypeView::LAngle => {
            reveal_strlit("<");
        },
        TokenTypeView::RAngle => {
            reveal_strlit(">");
        },
        TokenTypeView::Semicolon => {
            reveal_strlit(";");
        },
        TokenTypeView::Colon => {
            reveal_strlit(":");
        },
        TokenTypeView::Plus => {
            reveal_strlit("+");
        },
        TokenTypeView::Times => {
            reveal_strlit("*");
        },
        TokenTypeView::HighMultiplication => {
            reveal_strlit("*>>");
        },
        TokenTypeView::Minus => {
            reveal_strlit("-");
        },
        TokenTypeView::Divide => {
            reveal_strlit("/");
        },
        TokenTypeView::Mod => {
            reveal_strlit("%");
        },
        TokenTypeView::EQ => {
            reveal_strlit("==");
        },
        TokenTypeView::NE => {
            reveal_strlit("!=");
        },
        TokenTypeView::LE => {
            reveal_strlit("<=");
        },
        TokenTypeView::GE => {
            reveal_strlit(">=");
        },
        TokenTypeView::Assign => {
            reveal_strlit("=");
        },
        TokenTypeView::And => {
            reveal_strlit("&");
        },
        TokenTypeView::Or => {
            reveal_strlit("|");
        },
        TokenTypeView::Exclamation => {
            reveal_strlit("!");
        },
        TokenTypeView::Period => {
            reveal_strlit(".");
        },
        TokenTypeView::Comma => {
            reveal_strlit(",");
        },
        TokenTypeView::Underscore => {
            reveal_strlit("_");
        },
        _ => {},
    }
    assert(s.skip_whitespace() == s);
}

/// Scanning how a token of fixed spelling is written gives back that token, at line 1,
/// column 1, and nothing after it.
pub proof fn law_fixed_spelling_round_trip(t: TokenTypeView)
    requires
        has_fixed_spelling(t),
    ensures
        ScanState::start(t.display()).next_token().1 == Some(TokenView { line: 1, column: 1, ty: t }),
        ScanState::start(t.display()).next_token().0.next_token().1 is None,
{
    reveal_strlit("int");
    reveal_strlit("bool");
    reveal_strlit("true");
    reveal_strlit("false");
    reveal_strlit("while");
    reveal_strlit("use");
    reveal_strlit("if");
    reveal_strlit("else");
    reveal_strlit("return");
    reveal_strlit("length");
    match t {
        TokenTypeView::Int => {
            lemma_word_round_trip("int"@);
        },
        TokenTypeView::Bool => {
            lemma_word_round_trip("bool"@);
        },
        TokenTypeView::True => {
            lemma_word_round_trip("true"@);
        },
        TokenTypeView::False => {
            lemma_word_round_trip("false"@);
        },
        TokenTypeView::While => {
            lemma_word_round_trip("while"@);
        },
        TokenTypeView::Use => {
            lemma_word_round_trip("use"@);
        },
        TokenTypeView::If => {
            lemma_word_round_trip("if"@);
        },
        TokenTypeView::Else => {
            lemma_word_round_trip("else"@);
        },
        TokenTypeView::Return => {
            lemma_word_round_trip("return"@);
        },
        TokenTypeView::Length => {
            lemma_word_round_trip("length"@);
        },
        _ => {
            lemma_symbol_round_trip(t);
        },
    }
    law_no_token_at_end(ScanState::start(t.display()).next_token().0);
}

/// Whether `word` is spelled as one of the ten keywords.
pub open spec fn is_keyword_spelling(word: Seq<char>) -> bool {
    word == seq!['i', 'n', 't'] || word == seq!['b', 'o', 'o', 'l'] || word == seq!['w', 'h', 'i', 'l', 'e']
        || word == seq!['u', 's', 'e'] || word == seq!['r', 'e', 't', 'u', 'r', 'n']
        || word == seq!['l', 'e', 'n', 'g', 't', 'h'] || word == seq!['t', 'r', 'u', 'e']
        || word == seq!['f', 'a', 'l', 's', 'e'] || word == seq!['i', 'f'] || word == seq!['e', 'l', 's', 'e']
}

proof fn lemma_keyword_literals()
    ensures
        "int"@ == seq!['i', 'n', 't'],
        "bool"@ == seq!['b', 'o', 'o', 'l'],
        "while"@ == seq!['w', 'h', 'i', 'l', 'e'],
        "use"@ == seq!['u', 's', 'e'],
        "return"@ == seq!['r', 'e', 't', 'u', 'r', 'n'],
        "length"@ == seq!['l', 'e', 'n', 'g', 't', 'h'],
        "true"@ == seq!['t', 'r', 'u', 'e'],
        "false"@ == seq!['f', 'a', 'l', 's', 'e'],
        "if"@ == seq!['i', 'f'],
        "else"@ == seq!['e', 'l', 's', 'e'],
{
    reveal_strlit("int");
    reveal_strlit("bool");
    reveal_strlit("while");
    reveal_strlit("use");
    reveal_strlit("return");
    reveal_strlit("length");
    reveal_strlit("true");
    reveal_strlit("false");
    reveal_strlit("if");
    reveal_strlit("else");
    assert("int"@ =~= seq!['i', 'n', 't']);
    assert("bool"@ =~= seq!['b', 'o', 'o', 'l']);
    assert("while"@ =~= seq!['w', 'h', 'i', 'l', 'e']);
    assert("use"@ =~= seq!['u', 's', 'e']);
    assert("return"@ =~= seq!['r', 'e', 't', 'u', 'r', 'n']);
    assert("length"@ =~= seq!['l', 'e', 'n', 'g', 't', 'h']);
    assert("true"@ =~= seq!['t', 'r', 'u', 'e']);
    assert("false"@ =~= seq!['f', 'a', 'l', 's', 'e']);
    assert("if"@ =~= seq!['i', 'f']);
    assert("else"@ =~= seq!['e', 'l', 's', 'e']);
}

/// A word is a keyword only when the whole word, as read with maximal munch, is spelled
/// as that keyword; every other word is an identifier carrying exactly its text.
pub proof fn law_keyword_only_for_whole_word(s: ScanState)
    requires
        1 <= s.pos <= s.text.len(),
    ensures
        ({
            let end = s.lex_key_or_identifier().0.pos;
            let word = s.text.subrange(s.pos - 1, end as int);
            let ty = s.lex_key_or_identifier().1.ty;
            &&& !is_keyword_spelling(word) ==> ty == TokenTypeView::Identifier(word)
            &&& word == seq!['i', 'n', 't'] ==> ty == TokenTypeView::Int
            &&& word == seq!['b', 'o', 'o', 'l'] ==> ty == TokenTypeView::Bool
            &&& word == seq!['w', 'h', 'i', 'l', 'e'] ==> ty == TokenTypeView::While
            &&& word == seq!['u', 's', 'e'] ==> ty == TokenTypeView::Use
            &&& word == seq!['r', 'e', 't', 'u', 'r', 'n'] ==> ty == TokenTypeView::Return
            &&& word == seq!['l', 'e', 'n', 'g', 't', 'h'] ==> ty == TokenTypeView::Length
            &&& word == seq!['t', 'r', 'u', 'e'] ==> ty == TokenTypeView::True
            &&& word == seq!['f', 'a', 'l', 's', 'e'] ==> ty == TokenTypeView::False
            &&& word == seq!['i', 'f'] ==> ty == TokenTypeView::If
            &&& word == seq!['e', 'l', 's', 'e'] ==> ty == TokenTypeView::Else
        }),
{
    lemma_keyword_literals();
}

/// A text that is one word (a letter, then letters, digits, `_` and `'`) lexes to one
/// token at 1:1: the identifier of the whole word, unless the whole word is a keyword;
/// nothing follows it.
pub proof fn law_word_lexes_whole(word: Seq<char>)
    requires
        word.len() >= 1,
        is_alpha(word[0]),
        forall|i: int| 0 <= i < word.len() ==> is_ident_char(#[trigger] word[i]),
    ensures
        ScanState::start(word).next_token().0.at_end(),
        !is_keyword_spelling(word) ==> ScanState::start(word).next_token().1 == Some(
            TokenView { line: 1, column: 1, ty: TokenTypeView::Identifier(word) },
        ),
        word == seq!['u', 's', 'e'] ==> ScanState::start(word).next_token().1 == Some(
            TokenView { line: 1, column: 1, ty: TokenTypeView::Use },
        ),
{
    let s = ScanState::start(word);
    assert(s.skip_whitespace() == s);
    lemma_ident_run(word, 1);
    assert(ident_end(word, 1) == word.len()) by {
        if ident_end(word, 1) < word.len() {
            assert(is_ident_char(word[ident_end(word, 1) as int]));
        }
    }
    assert(word.subrange(0, word.len() as int) =~= word);
    lemma_keyword_literals();
}

/// Each hexadecimal digit has its base-16 value, in either case.
pub proof fn law_hex_digit_values()
    ensures
        hex_digit_value('0') == 0 && hex_digit_value('1') == 1 && hex_digit_value('2') == 2,
        hex_digit_value('3') == 3 && hex_digit_value('4') == 4 && hex_digit_value('5') == 5,
        hex_digit_value('6') == 6 && hex_digit_value('7') == 7 && hex_digit_value('8') == 8,
        hex_digit_value('9') == 9,
        hex_digit_value('a') == 10 && hex_digit_value('A') == 10,
        hex_digit_value('b') == 11 && hex_digit_value('B') == 11,
        hex_digit_value('c') == 12 && hex_digit_value('C') == 12,
        hex_digit_value('d') == 13 && hex_digit_value('D') == 13,
        hex_digit_value('e') == 14 && hex_digit_value('E') == 14,
        hex_digit_value('f') == 15 && hex_digit_value('F') == 15,
        forall|c: char| is_hex_digit(c) ==> hex_digit_value(c) < 16,
{
}

/// The number that `digits` denote in base 16, digit by digit from the left.
pub open spec fn base16(digits: Seq<char>, acc: nat) -> nat
    decreases digits.len(),
{
    if digits.len() == 0 {
        acc
    } else {
        base16(digits.drop_first(), acc * 16 + hex_digit_value(digits[0]))
    }
}

proof fn lemma_hex_value_is_base16(digits: Seq<char>, acc: nat)
    ensures
        base16(digits, acc) == acc * pow16(digits.len()) + hex_value(digits),
    decreases digits.len(),
{
    if digits.len() > 0 {
        lemma_hex_value_is_base16(digits.drop_first(), acc * 16 + hex_digit_value(digits[0]));
        lemma_hex_value_split(digits);
        let n = (digits.len() - 1) as nat;
        let p = pow16(n);
        let h = hex_value(digits.drop_first());
        let d = hex_digit_value(digits[0]);
        assert(pow16(digits.len()) == 16 * p);
        assert((acc * 16 + d) * p + h == acc * (16 * p) + (d * p + h)) by (nonlinear_arith);
        assert(base16(digits, acc) == base16(digits.drop_first(), acc * 16 + d));
        assert(hex_value(digits) == d * p + h);
    } else {
        assert(pow16(0) == 1);
        assert(hex_value(digits) == 0);
    }
}

/// `16` to the power `n`.
pub open spec fn pow16(n: nat) -> nat
    decreases n,
{
    if n == 0 {
        1
    } else {
        16 * pow16((n - 1) as nat)
    }
}

proof fn lemma_hex_value_split(digits: Seq<char>)
    requires
        digits.len() > 0,
    ensures
        hex_value(digits) == hex_digit_value(digits[0]) * pow16((digits.len() - 1) as nat)
            + hex_value(digits.drop_first()),
    decreases digits.len(),
{
    if digits.len() == 1 {
        assert(digits.drop_last() =~= Seq::<char>::empty());
        assert(digits.drop_first() =~= Seq::<char>::empty());
        assert(hex_value(Seq::<char>::empty()) == 0);
        assert(pow16(0) == 1);
        assert(digits.last() == digits[0]);
        assert(hex_value(digits) == hex_digit_value(digits[0]));
        assert(hex_digit_value(digits[0]) * pow16(0) == hex_digit_value(digits[0]));
    } else {
        let init = digits.drop_last();
        lemma_hex_value_split(init);
        assert(init.drop_first() =~= digits.drop_first().drop_last());
        assert(digits.drop_first().last() == digits.last());
        assert(init[0] == digits[0]);
        assert(pow16((digits.len() - 1) as nat) == 16 * pow16((init.len() - 1) as nat));
        assert(hex_value(digits.drop_first()) == hex_value(digits.drop_first().drop_last()) * 16
            + hex_digit_value(digits.drop_first().last()));
        let n = (init.len() - 1) as nat;
        let d = hex_digit_value(digits[0]);
        let t = hex_value(init.drop_first());
        let l = hex_digit_value(digits.last());
        assert((d * pow16(n) + t) * 16 + l == d * (16 * pow16(n)) + (t * 16 + l)) by (nonlinear_arith);
        assert(hex_value(digits) == hex_value(init) * 16 + l);
        assert(hex_value(init) == d * pow16(n) + t);
        assert(hex_value(digits.drop_first()) == t * 16 + l);
        assert(d * pow16((digits.len() - 1) as nat) == d * (16 * pow16(n)));
    }
}

proof fn lemma_hex_digits_value(s: ScanState, digits: Seq<char>, start_col: nat)
    requires
        s.pos <= s.text.len(),
    ensures
        s.hex_digits(digits, start_col).1 matches Ok(c) ==> {
            let e = s.hex_digits(digits, start_col).0.pos;
            let all = digits + s.text.subrange(s.pos as int, e - 1);
            &&& s.pos < e <= s.text.len()
            &&& s.text[e - 1] == '}'
            &&& forall|i: int| s.pos <= i < e - 1 ==> is_hex_digit(#[trigger] s.text[i])
            &&& 1 <= all.len() <= 6
            &&& vstd::utf8::is_scalar(hex_value(all) as u32)
            &&& c == (hex_value(all) as u32) as char
        },
    decreases s.text.len() - s.pos,
{
    let n = s.consume().0;
    if let Some(c) = s.consume().1 {
        if digits.len() < 7 && is_hex_digit(c) {
            lemma_hex_digits_value(n, digits.push(c), start_col);
            let e = n.hex_digits(digits.push(c), start_col).0.pos;
            if n.hex_digits(digits.push(c), start_col).1 is Ok {
                assert(digits.push(c) + s.text.subrange(n.pos as int, e - 1)
                    =~= digits + s.text.subrange(s.pos as int, e - 1));
            }
        } else if digits.len() < 7 && c == '}' {
            assert(s.text.subrange(s.pos as int, s.pos as int) =~= Seq::<char>::empty());
            assert(digits + Seq::<char>::empty() =~= digits);
        }
    }
}

/// A hexadecimal escape that succeeds reads `{`, one to six hexadecimal digits and `}`,
/// and gives the character whose code is the number those digits write in base 16.
pub proof fn law_hex_escape_value(s: ScanState)
    requires
        s.pos <= s.text.len(),
    ensures
        s.hex_escape().1 matches Ok(c) ==> {
            let e = s.hex_escape().0.pos;
            let digits = s.text.subrange(s.pos + 1 as int, e - 1);
            &&& s.text[s.pos as int] == '{'
            &&& s.text[e - 1] == '}'
            &&& 1 <= digits.len() <= 6
            &&& forall|i: int| 0 <= i < digits.len() ==> is_hex_digit(#[trigger] digits[i])
            &&& c as u32 == base16(digits, 0)
        },
{
    let n = s.consume().0;
    if s.consume().1 == Some('{') {
        lemma_hex_digits_value(n, Seq::empty(), s.column);
        if let Ok(c) = s.hex_escape().1 {
            let e = s.hex_escape().0.pos;
            let digits = s.text.subrange(s.pos + 1 as int, e - 1);
            assert(Seq::<char>::empty() + digits =~= digits);
            lemma_hex_value_is_base16(digits, 0);
            assert forall|i: int| 0 <= i < digits.len() implies is_hex_digit(#[trigger] digits[i]) by {
                assert(digits[i] == s.text[s.pos + 1 + i]);
            }
            lemma_hex_value_small(digits);
            let v = hex_value(digits) as u32;
            vstd::utf8::char_u32_cast(c, c as u32);
            assert(v as char == c);
            assert((c as u32) as char == c);
            lemma_scalar_cast(v);
        }
    }
}

proof fn lemma_scalar_cast(v: u32)
    requires
        vstd::utf8::is_scalar(v),
    ensures
        (v as char) as u32 == v,
{
}

proof fn lemma_hex_value_small(digits: Seq<char>)
    requires
        digits.len() <= 6,
        forall|i: int| 0 <= i < digits.len() ==> is_hex_digit(#[trigger] digits[i]),
    ensures
        hex_value(digits) < pow16(digits.len()),
        hex_value(digits) < 0x1000000,
    decreases digits.len(),
{
    if digits.len() > 0 {
        let init = digits.drop_last();
        assert forall|i: int| 0 <= i < init.len() implies is_hex_digit(#[trigger] init[i]) by {
            assert(init[i] == digits[i]);
        }
        lemma_hex_value_small(init);
        let h = hex_value(init);
        let p = pow16(init.len());
        let d = hex_digit_value(digits.last());
        assert(is_hex_digit(digits[digits.len() - 1]));
        assert(h * 16 + d < p * 16) by (nonlinear_arith)
            requires
                h < p,
                d < 16,
        ;
    }
    reveal_with_fuel(pow16, 7);
}

/// `lex_files` gives each text the same queue as `Tokenizer::lex_file`: every token from
/// the start up to and including the first error token, or all of them and the
/// end-of-file token.
pub proof fn law_lex_files_queue_is_lex_file(source_texts: Seq<String>, i: int)
    requires
        0 <= i < source_texts.len(),
    ensures
        lexed_texts(source_texts).len() == source_texts.len(),
        lexed_texts(source_texts)[i] == lex_tokens(ScanState::start(source_texts[i]@)),
{
}

/// Once a source file is read, any option that follows refuses the command line,
/// whatever comes after it.
pub proof fn law_option_after_file_refused(args: Seq<Seq<char>>, option: Seq<char>, rest: Seq<Seq<char>>)
    requires
        parsed_args(args) matches Ok(config) && config.source_files.len() > 0,
        option == "--help"@ || option == "--lex"@ || option == "-D"@,
    ensures
        parsed_args(args.push(option) + rest) == Err::<ConfigView, ArgsError>(ArgsError::OptionAfterFile),
{
    let all = args.push(option) + rest;
    assert(args.len() != 1);
    assert(all.len() != 1);
    assert forall|j: int| 0 <= j < args.len() implies all[j] == args[j] by {}
    assert(all[args.len() as int] == option);
    lemma_parse_after_file(args, all, 1, empty_config(), false, false);
}

proof fn lemma_parse_after_file(
    args: Seq<Seq<char>>,
    all: Seq<Seq<char>>,
    i: nat,
    config: ConfigView,
    seen_file: bool,
    updated_path: bool,
)
    requires
        parse_from(args, i, config, seen_file, updated_path) matches Ok(c) && c.source_files.len() > 0,
        seen_file == (config.source_files.len() > 0),
        i <= args.len(),
        args.len() < all.len(),
        forall|j: int| 0 <= j < args.len() ==> all[j] == args[j],
        all[args.len() as int] == "--help"@ || all[args.len() as int] == "--lex"@ || all[args.len() as int] == "-D"@,
    ensures
        parse_from(all, i, config, seen_file, updated_path) == Err::<ConfigView, ArgsError>(ArgsError::OptionAfterFile),
    decreases args.len() - i,
{
    if i < args.len() {
        let arg = args[i as int];
        assert(all[i as int] == arg);
        if arg == "--help"@ {
            lemma_parse_after_file(args, all, i + 1, ConfigView { help: true, ..config }, seen_file, updated_path);
        } else if arg == "--lex"@ {
            lemma_parse_after_file(args, all, i + 1, ConfigView { lex: true, ..config }, seen_file, updated_path);
        } else if arg == "-D"@ {
            if !seen_file && !updated_path && i + 1 < args.len() {
                assert(all[i + 1 as int] == args[i + 1 as int]);
                lemma_parse_after_file(args, all, i + 2, ConfigView { path: Some(args[i + 1 as int]), ..config }, seen_file, true);
            }
        } else {
            lemma_parse_after_file(
                args,
                all,
                i + 1,
                ConfigView { source_files: config.source_files.push(arg), ..config },
                true,
                updated_path,
            );
        }
    }
}

/// The usage is printed whenever `--help` is given or there is no source file, whatever
/// else is asked; otherwise `--lex` lexes.
pub proof fn law_help_wins(config: ConfigView)
    ensures
        config.help || config.source_files.len() == 0 ==> task_of(config) == Task::Help,
        !config.help && config.source_files.len() > 0 && config.lex ==> task_of(config) == Task::Lex,
        task_of(config) == Task::Help ==> config.help || config.source_files.len() == 0,
{
}

/// A command line with `--help` before its files asks for the usage.
pub proof fn law_help_option_is_kept(args: Seq<Seq<char>>)
    requires
        args.len() >= 2,
        args[1] == "--help"@,
        parsed_args(args) is Ok,
    ensures
        parsed_args(args)->Ok_0.help,
        task_of(parsed_args(args)->Ok_0) == Task::Help,
{
    reveal_strlit("--help");
    reveal_strlit("--lex");
    reveal_strlit("-D");
    lemma_help_stays(args, 2, ConfigView { help: true, ..empty_config() }, false, false);
}

proof fn lemma_help_stays(args: Seq<Seq<char>>, i: nat, config: ConfigView, seen_file: bool, updated_path: bool)
    requires
        config.help,
    ensures
        parse_from(args, i, config, seen_file, updated_path) matches Ok(c) ==> c.help,
    decreases args.len() - i,
{
    if i < args.len() {
        let arg = args[i as int];
        if arg == "--help"@ {
            lemma_help_stays(args, i + 1, ConfigView { help: true, ..config }, seen_file, updated_path);
        } else if arg == "--lex"@ {
            lemma_help_stays(args, i + 1, ConfigView { lex: true, ..config }, seen_file, updated_path);
        } else if arg == "-D"@ {
            if i + 1 < args.len() {
                lemma_help_stays(args, i + 2, ConfigView { path: Some(args[i + 1 as int]), ..config }, seen_file, true);
            }
        } else {
            lemma_help_stays(args, i + 1, ConfigView { source_files: config.source_files.push(arg), ..config }, true, updated_path);
        }
    }
}

/// Decimal digits have their values, and an integer token's value is the number its
/// digits write in base 10: writing a number in decimal and reading it back gives it.
pub proof fn law_decimal_round_trip(n: nat)
    ensures
        decimal_value(decimal(n)) == n,
        decimal(n).len() >= 1,
        n > 0 ==> decimal(n)[0] != '0',
        forall|i: int| 0 <= i < decimal(n).len() ==> is_digit(#[trigger] decimal(n)[i]),
    decreases n,
{
    let d = n % 10;
    assert((digit_char(d) as nat - '0' as nat) as nat == d) by {
        assert(d < 10);
    }
    if n < 10 {
        assert(seq![digit_char(n)].drop_last() =~= Seq::<char>::empty());
        assert(decimal_value(Seq::<char>::empty()) == 0);
    } else {
        law_decimal_round_trip(n / 10);
        let front = decimal(n / 10);
        assert(front.push(digit_char(d)).drop_last() =~= front);
        assert(front.push(digit_char(d))[0] == front[0]);
        assert(n == (n / 10) * 10 + d);
        assert forall|i: int| 0 <= i < decimal(n).len() implies is_digit(#[trigger] decimal(n)[i]) by {
            if i < front.len() {
                assert(decimal(n)[i] == front[i]);
            }
        }
    }
}

/// Each decimal digit has its value.
pub proof fn law_decimal_digit_values()
    ensures
        decimal_value(seq!['0']) == 0 && decimal_value(seq!['1']) == 1 && decimal_value(seq!['2']) == 2,
        decimal_value(seq!['3']) == 3 && decimal_value(seq!['4']) == 4 && decimal_value(seq!['5']) == 5,
        decimal_value(seq!['6']) == 6 && decimal_value(seq!['7']) == 7 && decimal_value(seq!['8']) == 8,
        decimal_value(seq!['9']) == 9,
{
    assert(decimal_value(Seq::<char>::empty()) == 0);
    assert(seq!['0'].drop_last() =~= Seq::<char>::empty());
    assert(seq!['1'].drop_last() =~= Seq::<char>::empty());
    assert(seq!['2'].drop_last() =~= Seq::<char>::empty());
    assert(seq!['3'].drop_last() =~= Seq::<char>::empty());
    assert(seq!['4'].drop_last() =~= Seq::<char>::empty());
    assert(seq!['5'].drop_last() =~= Seq::<char>::empty());
    assert(seq!['6'].drop_last() =~= Seq::<char>::empty());
    assert(seq!['7'].drop_last() =~= Seq::<char>::empty());
    assert(seq!['8'].drop_last() =~= Seq::<char>::empty());
    assert(seq!['9'].drop_last() =~= Seq::<char>::empty());
}

/// The single-letter escapes stand for their characters, and no other letter escapes.
pub proof fn law_simple_escapes()
    ensures
        simple_escape('n') == Some('\n'),
        simple_escape('r') == Some('\r'),
        simple_escape('t') == Some('\t'),
        simple_escape('\'') == Some('\''),
        simple_escape('"') == Some('"'),
        simple_escape('\\') == Some('\\'),
        forall|c: char| simple_escape(c) is Some ==>
            c == 'n' || c == 'r' || c == 't' || c == '\'' || c == '"' || c == '\\',
{
}

/// A command line of source files only (no word spelled as an option) names those files,
/// in order, and asks for nothing else.
pub proof fn law_plain_files(args: Seq<Seq<char>>)
    requires
        args.len() >= 2,
        forall|j: int| 1 <= j < args.len() ==> #[trigger] args[j] != "--help"@ && args[j] != "--lex"@
            && args[j] != "-D"@,
    ensures
        parsed_args(args) == Ok::<ConfigView, ArgsError>(
            ConfigView { source_files: args.subrange(1, args.len() as int), ..empty_config() },
        ),
{
    lemma_plain_files(args, 1, empty_config(), false, false);
    assert(empty_config().source_files + args.subrange(1, args.len() as int) =~= args.subrange(1, args.len() as int));
}

proof fn lemma_plain_files(args: Seq<Seq<char>>, i: nat, config: ConfigView, seen_file: bool, updated_path: bool)
    requires
        i <= args.len(),
        forall|j: int| i <= j < args.len() ==> #[trigger] args[j] != "--help"@ && args[j] != "--lex"@
            && args[j] != "-D"@,
    ensures
        parse_from(args, i, config, seen_file, updated_path) == Ok::<ConfigView, ArgsError>(
            ConfigView { source_files: config.source_files + args.subrange(i as int, args.len() as int), ..config },
        ),
    decreases args.len() - i,
{
    if i < args.len() {
        let arg = args[i as int];
        let next = ConfigView { source_files: config.source_files.push(arg), ..config };
        lemma_plain_files(args, i + 1, next, true, updated_path);
        assert(next.source_files + args.subrange(i + 1 as int, args.len() as int)
            =~= config.source_files + args.subrange(i as int, args.len() as int));
    } else {
        assert(config.source_files + args.subrange(i as int, args.len() as int) =~= config.source_files);
    }
}

/// Every token but an error token stands for a terminal; an error token stands for none,
/// and the message says so and carries the token's own message.
pub proof fn law_terminal_of(ty: TokenTypeView)
    ensures
        terminal_of(ty) is Err <==> ty is Error,
        ty matches TokenTypeView::Error(msg) ==> terminal_of(ty)->Err_0.len() >= msg.len()
            && terminal_of(ty)->Err_0.subrange(
                terminal_of(ty)->Err_0.len() - msg.len(),
                terminal_of(ty)->Err_0.len() as int,
            ) == msg,
        ty is Eof ==> terminal_of(ty) == Ok::<Terminal, Seq<char>>(Terminal::Eof),
        ty is Identifier ==> terminal_of(ty) == Ok::<Terminal, Seq<char>>(Terminal::Identifier),
{
    if let TokenTypeView::Error(msg) = ty {
        let m = terminal_of(ty)->Err_0;
        assert(m.subrange(m.len() - msg.len(), m.len() as int) =~= msg);
    }
}

/// A name ends with what was appended to it.
pub proof fn law_ends_with_suffix(name: Seq<char>, suffix: Seq<char>)
    ensures
        ends_with(name + suffix, suffix),
        !ends_with(suffix, name + suffix) || name.len() == 0,
{
    assert((name + suffix).subrange(name.len() as int, (name + suffix).len() as int) =~= suffix);
}

} // verus!
