//! The meaning of scanning: a model of the scanner's state and of each step it takes.
use vstd::prelude::*;
use crate::text::decimal;
use crate::token::TokenView;
use crate::token_type::TokenTypeView;

verus! {

/// Bytes that `c` takes in UTF-8 (`char::len_utf8`).
pub open spec fn utf8_width(c: char) -> nat {
    if (c as u32) < 0x80 {
        1
    } else if (c as u32) < 0x800 {
        2
    } else if (c as u32) < 0x10000 {
        3
    } else {
        4
    }
}

/// Bytes that `s` takes in UTF-8.
pub open spec fn utf8_len(s: Seq<char>) -> nat
    decreases s.len(),
{
    if s.len() == 0 {
        0
    } else {
        utf8_len(s.drop_last()) + utf8_width(s.last())
    }
}

/// A text whose UTF-8 encoding fits in an allocation (at most `isize::MAX` bytes), as
/// that of every `str` does. Every position, line, column and byte count in it then
/// fits in a `usize`.
pub open spec fn text_fits(text: Seq<char>) -> bool {
    vstd::utf8::encode_utf8(text).len() <= isize::MAX
}

/// The lines that `consumed` ends: each line feed, and each carriage return, with a
/// carriage return and the line feed after it ending one line only. (That is, the line
/// feeds and the carriage returns not followed by a line feed.)
pub open spec fn line_breaks(consumed: Seq<char>) -> nat
    decreases consumed.len(),
{
    if consumed.len() == 0 {
        0
    } else {
        let prev = consumed.drop_last();
        let c = consumed.last();
        if c == '\r' || (c == '\n' && !(prev.len() > 0 && prev.last() == '\r')) {
            line_breaks(prev) + 1
        } else {
            line_breaks(prev)
        }
    }
}

/// The column after `consumed`: the columns of the characters since its last line end,
/// two for a tab and one for any other character.
pub open spec fn column_of(consumed: Seq<char>) -> nat
    decreases consumed.len(),
{
    if consumed.len() == 0 {
        0
    } else {
        let c = consumed.last();
        if c == '\n' || c == '\r' {
            0
        } else if c == '\t' {
            column_of(consumed.drop_last()) + 2
        } else {
            column_of(consumed.drop_last()) + 1
        }
    }
}

/// Space, tab, line feed and carriage return.
pub open spec fn is_whitespace(c: char) -> bool {
    c == '\n' || c == '\t' || c == ' ' || c == '\r'
}

/// An ASCII decimal digit.
pub open spec fn is_digit(c: char) -> bool {
    '0' <= c && c <= '9'
}

/// An ASCII letter.
pub open spec fn is_alpha(c: char) -> bool {
    ('a' <= c && c <= 'z') || ('A' <= c && c <= 'Z')
}

/// An ASCII hexadecimal digit, in either case.
pub open spec fn is_hex_digit(c: char) -> bool {
    is_digit(c) || ('a' <= c && c <= 'f') || ('A' <= c && c <= 'F')
}

/// Characters that may continue an identifier.
pub open spec fn is_ident_char(c: char) -> bool {
    is_alpha(c) || is_digit(c) || c == '_' || c == '\''
}

/// The value of a hexadecimal digit.
pub open spec fn hex_digit_value(c: char) -> nat {
    if is_digit(c) {
        (c as nat - '0' as nat) as nat
    } else if 'a' <= c && c <= 'f' {
        (c as nat - 'a' as nat + 10) as nat
    } else {
        (c as nat - 'A' as nat + 10) as nat
    }
}

/// The number that the hexadecimal digits `digits` denote.
pub open spec fn hex_value(digits: Seq<char>) -> nat
    decreases digits.len(),
{
    if digits.len() == 0 {
        0
    } else {
        hex_value(digits.drop_last()) * 16 + hex_digit_value(digits.last())
    }
}

/// The number that the decimal digits `digits` denote.
pub open spec fn decimal_value(digits: Seq<char>) -> nat
    decreases digits.len(),
{
    if digits.len() == 0 {
        0
    } else {
        decimal_value(digits.drop_last()) * 10 + (digits.last() as nat - '0' as nat) as nat
    }
}

/// The end of the run of decimal digits in `text` that starts at `from`.
pub open spec fn digits_end(text: Seq<char>, from: nat) -> nat
    decreases text.len() - from,
{
    if from < text.len() && is_digit(text[from as int]) {
        digits_end(text, from + 1)
    } else {
        from
    }
}

/// The end of the run of identifier characters in `text` that starts at `from`.
pub open spec fn ident_end(text: Seq<char>, from: nat) -> nat
    decreases text.len() - from,
{
    if from < text.len() && is_ident_char(text[from as int]) {
        ident_end(text, from + 1)
    } else {
        from
    }
}

/// The keyword that `word` spells, or else the identifier `word`.
pub open spec fn keyword_or_identifier(word: Seq<char>) -> TokenTypeView {
    if word == "int"@ {
        TokenTypeView::Int
    } else if word == "bool"@ {
        TokenTypeView::Bool
    } else if word == "while"@ {
        TokenTypeView::While
    } else if word == "use"@ {
        TokenTypeView::Use
    } else if word == "return"@ {
        TokenTypeView::Return
    } else if word == "length"@ {
        TokenTypeView::Length
    } else if word == "true"@ {
        TokenTypeView::True
    } else if word == "false"@ {
        TokenTypeView::False
    } else if word == "if"@ {
        TokenTypeView::If
    } else if word == "else"@ {
        TokenTypeView::Else
    } else {
        TokenTypeView::Identifier(word)
    }
}

/// The character that an escape `\c` stands for, for the single-letter escapes.
pub open spec fn simple_escape(c: char) -> Option<char> {
    if c == 'n' {
        Some('\n')
    } else if c == 'r' {
        Some('\r')
    } else if c == 't' {
        Some('\t')
    } else if c == '\'' {
        Some('\'')
    } else if c == '"' {
        Some('"')
    } else if c == '\\' {
        Some('\\')
    } else {
        None
    }
}

// The messages of error tokens.

/// `<line>:<column>`.
pub open spec fn position_text(line: nat, column: nat) -> Seq<char> {
    decimal(line) + ":"@ + decimal(column)
}

pub open spec fn star_received_message(c: char) -> Seq<char> {
    "Expected > to finish High Multiplication token but received "@.push(c)
}

pub open spec fn star_nothing_message() -> Seq<char> {
    "Expected > to finish High Mulitplication Token but found nothing"@
}

pub open spec fn hex_open_message(line: nat, column: nat) -> Seq<char> {
    "Expected { to begin Unicode Character hex value at "@ + position_text(line, column)
}

pub open spec fn hex_empty_message(line: nat, column: nat) -> Seq<char> {
    "Empty Hex Escape Given at "@ + position_text(line, column)
}

pub open spec fn hex_invalid_message(digits: Seq<char>) -> Seq<char> {
    "Hexadecimal number "@ + digits + " could not be parsed to valid unicode"@
}

pub open spec fn hex_bad_digit_message(c: char) -> Seq<char> {
    "Expected valid hexadecimal character but got: "@.push(c)
}

pub open spec fn hex_close_message(line: nat, column: nat) -> Seq<char> {
    "Expected } to end Unicode Character value hex at "@ + position_text(line, column)
}

pub open spec fn escape_unexpected_message(c: char) -> Seq<char> {
    "Unexpected Escape Sequence found: \\"@.push(c)
}

pub open spec fn escape_unfinished_message() -> Seq<char> {
    "Unfinished Escape Seqeunce. Expected literal to terminate with <escape>' but got nothing"@
}

pub open spec fn no_character_message() -> Seq<char> {
    "No Character Given"@
}

pub open spec fn character_open_message() -> Seq<char> {
    "Expected character literal to be closed with ' but got nothing"@
}

pub open spec fn character_unclosed_message(c: char) -> Seq<char> {
    "Expected character literal to be closed with ' but got "@.push(c)
}

pub open spec fn string_unclosed_message(line: nat, column: nat) -> Seq<char> {
    "Expected \" to close String at "@ + position_text(line, column)
}

pub open spec fn integer_overflow_message() -> Seq<char> {
    "Trouble Parsing int: number too large to fit in target type"@
}

pub open spec fn integer_invalid_message() -> Seq<char> {
    "Trouble Parsing int: invalid digit found in string"@
}

/// The integer token of `value`, or an error token when it does not fit in a `u64`.
pub open spec fn integer_token(value: nat) -> TokenTypeView {
    if value <= u64::MAX {
        TokenTypeView::Integer(value as u64)
    } else {
        TokenTypeView::Error(integer_overflow_message())
    }
}

pub open spec fn unexpected_character_message(c: char) -> Seq<char> {
    "Unexpected character: "@.push(c)
}

/// Where a scan stands: the text, the number of characters consumed (`pos`), the
/// line and column of the last character consumed, and the bytes consumed (`index`).
pub struct ScanState {
    pub text: Seq<char>,
    pub pos: nat,
    pub line: nat,
    pub column: nat,
    pub index: nat,
}

/// `t` is a later state of the same scan as `s`.
pub open spec fn advances(s: ScanState, t: ScanState) -> bool {
    &&& t.text == s.text
    &&& s.pos <= t.pos
    &&& s.pos <= s.text.len() ==> t.pos <= t.text.len()
}

impl ScanState {
    /// The state before anything of `text` is consumed.
    pub open spec fn start(text: Seq<char>) -> ScanState {
        ScanState { text, pos: 0, line: 1, column: 0, index: 0 }
    }

    /// The characters consumed so far.
    pub open spec fn consumed(self) -> Seq<char> {
        self.text.take(self.pos as int)
    }

    /// A state that a scan of a fitting text can reach: the byte count, line and column
    /// are those of the characters consumed, a carriage return and the line feed after
    /// it are never consumed apart, and the counts fit in a `usize`.
    pub open spec fn wf(self) -> bool {
        &&& text_fits(self.text)
        &&& self.pos <= self.text.len()
        &&& self.index == utf8_len(self.consumed())
        &&& self.line == 1 + line_breaks(self.consumed())
        &&& self.column == column_of(self.consumed())
        &&& !(0 < self.pos < self.text.len() && self.text[self.pos - 1] == '\r'
            && self.text[self.pos as int] == '\n')
        &&& self.index <= utf8_len(self.text) <= isize::MAX
        &&& self.pos <= utf8_len(self.text)
        &&& self.line <= self.pos + 1
        &&& self.column <= 2 * self.pos
    }

    /// Every character has been consumed.
    pub open spec fn at_end(self) -> bool {
        self.pos >= self.text.len()
    }

    /// The next character, not consumed.
    pub open spec fn peek(self) -> Option<char> {
        if self.pos < self.text.len() {
            Some(self.text[self.pos as int])
        } else {
            None
        }
    }

    /// A token of kind `ty` at the current line and column.
    pub open spec fn token(self, ty: TokenTypeView) -> TokenView {
        TokenView { line: self.line, column: self.column, ty }
    }

    /// A token of kind `ty` at the current line and the given column.
    pub open spec fn token_at(self, column: nat, ty: TokenTypeView) -> TokenView {
        TokenView { line: self.line, column, ty }
    }

    /// Consumes the next character: a line feed, and a carriage return with the line
    /// feed after it, end the line and read as a line feed; a lone carriage return ends
    /// the line too; a tab takes two columns, any other character one.
    pub open spec fn consume(self) -> (ScanState, Option<char>) {
        if self.pos < self.text.len() {
            let c = self.text[self.pos as int];
            let next = ScanState {
                pos: self.pos + 1,
                index: self.index + utf8_width(c),
                ..self
            };
            if c == '\n' {
                (ScanState { line: self.line + 1, column: 0, ..next }, Some('\n'))
            } else if c == '\r' {
                if next.peek() == Some('\n') {
                    (
                        ScanState {
                            pos: next.pos + 1,
                            index: next.index + 1,
                            line: self.line + 1,
                            column: 0,
                            ..next
                        },
                        Some('\n'),
                    )
                } else {
                    (ScanState { line: self.line + 1, column: 0, ..next }, Some('\r'))
                }
            } else if c == '\t' {
                (ScanState { column: self.column + 2, ..next }, Some('\t'))
            } else {
                (ScanState { column: self.column + 1, ..next }, Some(c))
            }
        } else {
            (self, None)
        }
    }

    /// Consumes whitespace up to the next other character.
    pub open spec fn skip_whitespace(self) -> ScanState
        decreases self.text.len() - self.pos,
    {
        match self.peek() {
            Some(c) => if is_whitespace(c) {
                self.consume().0.skip_whitespace()
            } else {
                self
            },
            None => self,
        }
    }

    /// Consumes the rest of a comment, its line end included.
    pub open spec fn skip_comment(self) -> ScanState
        decreases self.text.len() - self.pos,
    {
        match self.consume().1 {
            Some(c) => if c == '\n' {
                self.consume().0
            } else {
                self.consume().0.skip_comment()
            },
            None => self.consume().0,
        }
    }

    /// After a `/`: a division sign, or, before a second `/`, a comment that yields no token.
    pub open spec fn lex_slash(self) -> (ScanState, Option<TokenView>) {
        if self.peek() == Some('/') {
            (self.skip_comment(), None)
        } else {
            (self, Some(self.token(TokenTypeView::Divide)))
        }
    }

    /// After a `*`: `*` alone, or `*>>`.
    pub open spec fn lex_star(self) -> (ScanState, TokenView) {
        let start_col = self.column;
        if self.peek() == Some('>') {
            let s1 = self.consume().0;
            let s2 = s1.consume().0;
            match s1.consume().1 {
                Some(c) => if c == '>' {
                    (s2, s2.token_at(start_col, TokenTypeView::HighMultiplication))
                } else {
                    (s2, s2.token_at(start_col, TokenTypeView::Error(star_received_message(c))))
                },
                None => (s2, s2.token_at(start_col, TokenTypeView::Error(star_nothing_message()))),
            }
        } else {
            (self, self.token(TokenTypeView::Times))
        }
    }

    /// After `\x`: `{`, one to six hexadecimal digits and `}` naming a Unicode scalar value.
    pub open spec fn hex_escape(self) -> (ScanState, Result<char, Seq<char>>) {
        let start_col = self.column;
        let s1 = self.consume().0;
        if self.consume().1 == Some('{') {
            s1.hex_digits(Seq::empty(), start_col)
        } else {
            (s1, Err(hex_open_message(s1.line, start_col)))
        }
    }

    /// The digits of a hexadecimal escape, after the `{` and the digits already read.
    pub open spec fn hex_digits(self, digits: Seq<char>, start_col: nat) -> (ScanState, Result<char, Seq<char>>)
        decreases self.text.len() - self.pos,
    {
        let s1 = self.consume().0;
        match self.consume().1 {
            None => (s1, Err(hex_close_message(s1.line, start_col))),
            Some(c) => if digits.len() >= 7 {
                (s1, Err(hex_close_message(s1.line, start_col)))
            } else if is_hex_digit(c) {
                s1.hex_digits(digits.push(c), start_col)
            } else if c == '}' {
                if digits.len() == 0 {
                    (s1, Err(hex_empty_message(s1.line, start_col)))
                } else if vstd::utf8::is_scalar(hex_value(digits) as u32) {
                    (s1, Ok((hex_value(digits) as u32) as char))
                } else {
                    (s1, Err(hex_invalid_message(digits)))
                }
            } else {
                (s1, Err(hex_bad_digit_message(c)))
            },
        }
    }

    /// After a `\`: the character that the escape sequence stands for.
    pub open spec fn escape(self) -> (ScanState, Result<char, Seq<char>>) {
        let s1 = self.consume().0;
        match self.consume().1 {
            Some(c) => if c == 'x' {
                s1.hex_escape()
            } else {
                match simple_escape(c) {
                    Some(e) => (s1, Ok(e)),
                    None => (s1, Err(escape_unexpected_message(c))),
                }
            },
            None => (s1, Err(escape_unfinished_message())),
        }
    }

    /// After a `'`: a character literal.
    pub open spec fn lex_character(self) -> (ScanState, TokenView) {
        let start_col = self.column;
        let s1 = self.consume().0;
        match self.consume().1 {
            None => (s1, s1.token_at(start_col, TokenTypeView::Error(character_open_message()))),
            Some(c) => if c == '\\' {
                match s1.escape().1 {
                    Ok(v) => s1.escape().0.close_character(v, start_col),
                    Err(msg) => (s1.escape().0, s1.escape().0.token_at(start_col, TokenTypeView::Error(msg))),
                }
            } else if c == '\'' {
                (s1, s1.token_at(start_col, TokenTypeView::Error(no_character_message())))
            } else {
                s1.close_character(c, start_col)
            },
        }
    }

    /// The closing `'` of a character literal holding `val`.
    pub open spec fn close_character(self, val: char, start_col: nat) -> (ScanState, TokenView) {
        let s1 = self.consume().0;
        match self.consume().1 {
            Some(c) => if c == '\'' {
                (s1, s1.token_at(start_col, TokenTypeView::Character(val)))
            } else {
                (s1, s1.token_at(start_col, TokenTypeView::Error(character_unclosed_message(c))))
            },
            None => (s1, s1.token_at(start_col, TokenTypeView::Error(escape_unfinished_message()))),
        }
    }

    /// After a `"`: a string literal.
    pub open spec fn lex_string(self) -> (ScanState, TokenView) {
        self.string_body(Seq::empty(), self.column)
    }

    /// The rest of a string literal whose characters so far are `contents`.
    pub open spec fn string_body(self, contents: Seq<char>, start_col: nat) -> (ScanState, TokenView)
        decreases self.text.len() - self.pos,
    {
        let s1 = self.consume().0;
        match self.consume().1 {
            None => (s1, s1.token_at(start_col, TokenTypeView::Error(string_unclosed_message(s1.line, start_col)))),
            Some(c) => if c == '"' {
                (s1, s1.token_at(start_col, TokenTypeView::String(contents)))
            } else if c == '\\' {
                let s2 = s1.escape().0;
                match s1.escape().1 {
                    Ok(v) => {
                        proof {
                            lemma_escape_advances(s1);
                        }
                        s2.string_body(contents.push(v), start_col)
                    },
                    Err(msg) => (s2, s2.token_at(start_col, TokenTypeView::Error(msg))),
                }
            } else {
                s1.string_body(contents.push(c), start_col)
            },
        }
    }

    /// After a character that may be followed by `=`: the two-character operator
    /// `with_eq`, or the one-character `alone`.
    pub open spec fn lex_with_equal(self, with_eq: TokenTypeView, alone: TokenTypeView) -> (ScanState, TokenView) {
        if self.peek() == Some('=') {
            (self.consume().0, self.token(with_eq))
        } else {
            (self, self.token(alone))
        }
    }

    /// The state after consuming the characters up to `end`, none of them a tab or a line end.
    pub open spec fn advance_plain(self, end: nat) -> ScanState {
        ScanState {
            pos: end,
            column: self.column + (end - self.pos) as nat,
            index: self.index + (end - self.pos) as nat,
            ..self
        }
    }

    /// After a digit: the longest run of digits from that one on, as an integer.
    /// (The character before the run is read as the integer's first character; a `+`
    /// there is a sign, and any other non-digit makes the integer invalid.)
    pub open spec fn lex_integer(self) -> (ScanState, TokenView) {
        let end = digits_end(self.text, self.pos);
        let s1 = self.advance_plain(end);
        let first = self.text[self.pos - 1];
        let run = self.text.subrange(self.pos as int, end as int);
        let ty = if is_digit(first) {
            integer_token(decimal_value(self.text.subrange(self.pos - 1, end as int)))
        } else if first == '+' && run.len() > 0 {
            integer_token(decimal_value(run))
        } else {
            TokenTypeView::Error(integer_invalid_message())
        };
        (s1, s1.token_at(self.column, ty))
    }

    /// After a letter: the longest run of identifier characters from that one on,
    /// as a keyword or an identifier.
    pub open spec fn lex_key_or_identifier(self) -> (ScanState, TokenView) {
        let end = ident_end(self.text, self.pos);
        let s1 = self.advance_plain(end);
        (s1, s1.token_at(self.column, keyword_or_identifier(self.text.subrange(self.pos - 1, end as int))))
    }

    /// The token that starts with the character `c` just consumed, `/` aside.
    pub open spec fn lex_after(self, c: char) -> (ScanState, TokenView) {
        if c == '(' {
            (self, self.token(TokenTypeView::LParen))
        } else if c == ')' {
            (self, self.token(TokenTypeView::RParen))
        } else if c == '[' {
            (self, self.token(TokenTypeView::LBracket))
        } else if c == ']' {
            (self, self.token(TokenTypeView::RBracket))
        } else if c == '{' {
            (self, self.token(TokenTypeView::LBrace))
        } else if c == '}' {
            (self, self.token(TokenTypeView::RBrace))
        } else if c == ',' {
            (self, self.token(TokenTypeView::Comma))
        } else if c == '.' {
            (self, self.token(TokenTypeView::Period))
        } else if c == ';' {
            (self, self.token(TokenTypeView::Semicolon))
        } else if c == ':' {
            (self, self.token(TokenTypeView::Colon))
        } else if c == '+' {
            (self, self.token(TokenTypeView::Plus))
        } else if c == '-' {
            (self, self.token(TokenTypeView::Minus))
        } else if c == '%' {
            (self, self.token(TokenTypeView::Mod))
        } else if c == '&' {
            (self, self.token(TokenTypeView::And))
        } else if c == '|' {
            (self, self.token(TokenTypeView::Or))
        } else if c == '_' {
            (self, self.token(TokenTypeView::Underscore))
        } else if c == '*' {
            self.lex_star()
        } else if c == '!' {
            self.lex_with_equal(TokenTypeView::NE, TokenTypeView::Exclamation)
        } else if c == '<' {
            self.lex_with_equal(TokenTypeView::LE, TokenTypeView::LAngle)
        } else if c == '>' {
            self.lex_with_equal(TokenTypeView::GE, TokenTypeView::RAngle)
        } else if c == '=' {
            self.lex_with_equal(TokenTypeView::EQ, TokenTypeView::Assign)
        } else if c == '"' {
            self.lex_string()
        } else if c == '\'' {
            self.lex_character()
        } else if is_digit(c) {
            self.lex_integer()
        } else if is_alpha(c) {
            self.lex_key_or_identifier()
        } else {
            (self, self.token(TokenTypeView::Error(unexpected_character_message(c))))
        }
    }

    /// The next token after whitespace and comments, or `None` at the end of the text.
    pub open spec fn next_token(self) -> (ScanState, Option<TokenView>)
        decreases self.text.len() - self.pos,
    {
        let s1 = self.skip_whitespace();
        let s2 = s1.consume().0;
        match s1.consume().1 {
            None => (s2, None),
            Some(c) => if c == '/' {
                let s3 = s2.lex_slash().0;
                match s2.lex_slash().1 {
                    Some(t) => (s3, Some(t)),
                    None => {
                        proof {
                            lemma_skip_whitespace_advances(self);
                            lemma_skip_comment_advances(s2);
                        }
                        s3.next_token()
                    },
                }
            } else {
                let r = s2.lex_after(c);
                (r.0, Some(r.1))
            },
        }
    }
}

impl ScanState {
    /// The state just after the first character of the next token is consumed, past
    /// whitespace and comments (or the end state when there is no next token).
    pub open spec fn token_start(self) -> ScanState
        decreases self.text.len() - self.pos,
    {
        let s1 = self.skip_whitespace();
        let s2 = s1.consume().0;
        match s1.consume().1 {
            None => s2,
            Some(c) => if c == '/' && s2.peek() == Some('/') {
                proof {
                    lemma_skip_whitespace_advances(self);
                    lemma_skip_comment_advances(s2);
                }
                s2.skip_comment().token_start()
            } else {
                s2
            },
        }
    }
}

/// The end of the run of whitespace in `text` that starts at `i`.
pub open spec fn whitespace_end(text: Seq<char>, i: nat) -> nat
    decreases text.len() - i,
{
    if i < text.len() && is_whitespace(text[i as int]) {
        whitespace_end(text, i + 1)
    } else {
        i
    }
}

/// Where a comment whose text starts at `i` ends: just after the next line feed, or at
/// the end of the text.
pub open spec fn comment_end(text: Seq<char>, i: nat) -> nat
    decreases text.len() - i,
{
    if i < text.len() {
        if text[i as int] == '\n' {
            i + 1
        } else {
            comment_end(text, i + 1)
        }
    } else {
        i
    }
}

/// A comment ends within the text, after where it starts.
pub proof fn lemma_comment_end_bounds(text: Seq<char>, i: nat)
    ensures
        i <= comment_end(text, i),
        i <= text.len() ==> comment_end(text, i) <= text.len(),
    decreases text.len() - i,
{
    if i < text.len() && text[i as int] != '\n' {
        lemma_comment_end_bounds(text, i + 1);
    }
}

/// Whether `text` from `i` on holds only whitespace and `//` comments.
pub open spec fn rest_is_blank(text: Seq<char>, i: nat) -> bool
    decreases text.len() - i,
{
    if i >= text.len() {
        true
    } else if is_whitespace(text[i as int]) {
        rest_is_blank(text, i + 1)
    } else if text[i as int] == '/' && i + 1 < text.len() && text[i + 1 as int] == '/' {
        proof {
            lemma_comment_end_bounds(text, i + 2);
        }
        rest_is_blank(text, comment_end(text, i + 2))
    } else {
        false
    }
}

/// More characters consumed take more bytes.
pub proof fn lemma_utf8_len_grows(text: Seq<char>, p: nat, q: nat)
    requires
        p < q <= text.len(),
    ensures
        utf8_len(text.take(p as int)) < utf8_len(text.take(q as int)),
    decreases q - p,
{
    let prev = (q - 1) as nat;
    assert(text.take(q as int).drop_last() =~= text.take(prev as int));
    assert(text.take(q as int).last() == text[prev as int]);
    if p < prev {
        lemma_utf8_len_grows(text, p, prev);
    }
}

/// Bytes that the first character of `s` takes, plus those of the rest.
pub proof fn lemma_utf8_len_first(s: Seq<char>)
    requires
        s.len() > 0,
    ensures
        utf8_len(s) == utf8_width(s[0]) + utf8_len(s.drop_first()),
    decreases s.len(),
{
    if s.len() > 1 {
        lemma_utf8_len_first(s.drop_last());
        assert(s.drop_last().drop_first() =~= s.drop_first().drop_last());
        assert(s.drop_first().last() == s.last());
        assert(s.drop_last()[0] == s[0]);
    } else {
        assert(s.drop_first() =~= Seq::<char>::empty());
        assert(s.drop_last() =~= Seq::<char>::empty());
        assert(utf8_len(Seq::<char>::empty()) == 0);
        assert(s.last() == s[0]);
    }
}

/// `utf8_len` counts the bytes of vstd's `encode_utf8`.
pub proof fn lemma_utf8_len_is_encoding_len(s: Seq<char>)
    ensures
        vstd::utf8::encode_utf8(s).len() == utf8_len(s),
    decreases s.len(),
{
    if s.len() > 0 {
        lemma_utf8_len_first(s);
        lemma_utf8_len_is_encoding_len(s.drop_first());
        let c = s[0];
        let u = c as u32;
        assert(vstd::utf8::is_scalar(u)) by {
            vstd::utf8::char_is_scalar(c);
        }
    }
}

/// A prefix takes no more bytes than the whole, and at least a byte per character.
pub proof fn lemma_utf8_len_prefix(text: Seq<char>, p: nat)
    requires
        p <= text.len(),
    ensures
        p <= utf8_len(text.take(p as int)) <= utf8_len(text),
    decreases text.len() - p,
{
    if p < text.len() {
        lemma_utf8_len_prefix(text, p + 1);
        lemma_utf8_len_at_least_len(text.take(p as int));
        assert(text.take(p + 1 as int).drop_last() =~= text.take(p as int));
        assert(text.take(p + 1 as int).last() == text[p as int]);
        assert(utf8_len(text.take(p + 1 as int)) == utf8_len(text.take(p as int)) + utf8_width(text[p as int]));
    } else {
        assert(text.take(p as int) =~= text);
        lemma_utf8_len_at_least_len(text);
    }
}

/// Every character takes at least one byte.
pub proof fn lemma_utf8_len_at_least_len(s: Seq<char>)
    ensures
        s.len() <= utf8_len(s),
    decreases s.len(),
{
    if s.len() > 0 {
        lemma_utf8_len_at_least_len(s.drop_last());
    }
}

/// Consuming moves forward by one character, or by two for a carriage return and
/// line feed, and does nothing at the end of the text.
pub proof fn lemma_consume_advances(s: ScanState)
    ensures
        advances(s, s.consume().0),
        s.pos < s.text.len() ==> s.pos < s.consume().0.pos && s.consume().1 is Some,
        s.pos >= s.text.len() ==> s.consume() == (s, None::<char>),
{
}

/// Skipping whitespace never moves backwards.
pub proof fn lemma_skip_whitespace_advances(s: ScanState)
    ensures
        advances(s, s.skip_whitespace()),
    decreases s.text.len() - s.pos,
{
    if let Some(c) = s.peek() {
        if is_whitespace(c) {
            lemma_skip_whitespace_advances(s.consume().0);
        }
    }
}

/// Skipping a comment never moves backwards.
pub proof fn lemma_skip_comment_advances(s: ScanState)
    ensures
        advances(s, s.skip_comment()),
    decreases s.text.len() - s.pos,
{
    if let Some(c) = s.consume().1 {
        if c != '\n' {
            lemma_skip_comment_advances(s.consume().0);
        }
    }
}

/// Reading hexadecimal digits never moves backwards.
pub proof fn lemma_hex_digits_advances(s: ScanState, digits: Seq<char>, start_col: nat)
    ensures
        advances(s, s.hex_digits(digits, start_col).0),
    decreases s.text.len() - s.pos,
{
    if let Some(c) = s.consume().1 {
        if digits.len() < 7 && is_hex_digit(c) {
            lemma_hex_digits_advances(s.consume().0, digits.push(c), start_col);
        }
    }
}

/// Reading an escape sequence never moves backwards.
pub proof fn lemma_escape_advances(s: ScanState)
    ensures
        advances(s, s.escape().0),
{
    let s1 = s.consume().0;
    if s.consume().1 == Some('x') {
        let s2 = s1.consume().0;
        lemma_hex_digits_advances(s2, Seq::empty(), s1.column);
    }
}

/// Reading a string literal never moves backwards.
pub proof fn lemma_string_body_advances(s: ScanState, contents: Seq<char>, start_col: nat)
    ensures
        advances(s, s.string_body(contents, start_col).0),
    decreases s.text.len() - s.pos,
{
    let s1 = s.consume().0;
    if let Some(c) = s.consume().1 {
        if c == '\\' {
            lemma_escape_advances(s1);
            if let Ok(v) = s1.escape().1 {
                lemma_string_body_advances(s1.escape().0, contents.push(v), start_col);
            }
        } else if c != '"' {
            lemma_string_body_advances(s1, contents.push(c), start_col);
        }
    }
}

/// A run of digits ends within the text, at or after its start.
pub proof fn lemma_digits_end_bounds(text: Seq<char>, from: nat)
    ensures
        from <= digits_end(text, from),
        from <= text.len() ==> digits_end(text, from) <= text.len(),
    decreases text.len() - from,
{
    if from < text.len() && is_digit(text[from as int]) {
        lemma_digits_end_bounds(text, from + 1);
    }
}

/// A run of identifier characters ends within the text, at or after its start.
pub proof fn lemma_ident_end_bounds(text: Seq<char>, from: nat)
    ensures
        from <= ident_end(text, from),
        from <= text.len() ==> ident_end(text, from) <= text.len(),
    decreases text.len() - from,
{
    if from < text.len() && is_ident_char(text[from as int]) {
        lemma_ident_end_bounds(text, from + 1);
    }
}

/// Lexing the token that starts with `c` never moves backwards.
pub proof fn lemma_lex_after_advances(s: ScanState, c: char)
    ensures
        advances(s, s.lex_after(c).0),
{
    lemma_consume_advances(s);
    lemma_consume_advances(s.consume().0);
    lemma_string_body_advances(s, Seq::empty(), s.column);
    lemma_escape_advances(s.consume().0);
    lemma_consume_advances(s.consume().0.escape().0);
    lemma_digits_end_bounds(s.text, s.pos);
    lemma_ident_end_bounds(s.text, s.pos);
}

/// A call of `next_token` never moves backwards, and moves forwards when it yields a token.
pub proof fn lemma_next_token_advances(s: ScanState)
    ensures
        advances(s, s.next_token().0),
        s.next_token().1 is Some ==> s.pos < s.next_token().0.pos <= s.text.len(),
    decreases s.text.len() - s.pos,
{
    let s1 = s.skip_whitespace();
    let s2 = s1.consume().0;
    lemma_skip_whitespace_advances(s);
    lemma_consume_advances(s1);
    if let Some(c) = s1.consume().1 {
        if c == '/' {
            lemma_skip_comment_advances(s2);
            if s2.lex_slash().1 is None {
                lemma_next_token_advances(s2.lex_slash().0);
            }
        } else {
            lemma_lex_after_advances(s2, c);
        }
    }
}

} // verus!
