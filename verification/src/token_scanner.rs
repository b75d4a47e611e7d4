//! The scanner that turns source text into tokens, one at a time.
use vstd::prelude::*;
use crate::scan_model::{
    ScanState, text_fits, utf8_len, utf8_width, line_breaks, column_of, lemma_utf8_len_prefix,
    lemma_utf8_len_is_encoding_len, lemma_utf8_len_at_least_len, lemma_utf8_len_grows,
    lemma_next_token_advances, is_digit, is_alpha, is_hex_digit, is_ident_char,
    hex_value, hex_digit_value, decimal_value, digits_end, ident_end, position_text,
    lemma_escape_advances, lemma_skip_whitespace_advances, lemma_skip_comment_advances,
};
use crate::text::{chars_of, push_char, push_decimal, push_str, string_of, string_of_range, range_is, char_from_u32};
use crate::token::Token;
use crate::token_type::{TokenType, TokenTypeView};

verus! {

/// The message of a malformed hexadecimal escape.
#[derive(Debug, Clone, PartialEq)]
pub struct UnexpectedHexEscape(pub String);

/// Where the scanner stands in its text.
#[derive(Debug, Clone, Copy)]
struct Cursor {
    pos: usize,
    line: usize,
    column: usize,
    index: usize,
}

/// Scans a text into tokens, keeping track of the line and column of the last
/// character consumed and of the bytes consumed so far.
#[derive(Debug)]
pub struct TokenScanner {
    chars: Vec<char>,
    at: Cursor,
}

/// Bytes that `c` takes in UTF-8.
fn utf8_width_of(c: char) -> (w: usize)
    ensures
        w == utf8_width(c),
        1 <= w <= 4,
{
    let u = c as u32;
    if u < 0x80 {
        1
    } else if u < 0x800 {
        2
    } else if u < 0x10000 {
        3
    } else {
        4
    }
}

/// One more character consumed: the prefix grows by it.
proof fn lemma_consumed_step(text: Seq<char>, p: nat)
    requires
        p < text.len(),
    ensures
        text.take(p + 1 as int).drop_last() == text.take(p as int),
        text.take(p + 1 as int).last() == text[p as int],
        utf8_len(text.take(p + 1 as int)) == utf8_len(text.take(p as int)) + utf8_width(text[p as int]),
        p > 0 ==> text.take(p as int).last() == text[p - 1],
{
    assert(text.take(p + 1 as int).drop_last() =~= text.take(p as int));
}

impl View for TokenScanner {
    type V = ScanState;

    closed spec fn view(&self) -> ScanState {
        ScanState {
            text: self.chars@,
            pos: self.at.pos as nat,
            line: self.at.line as nat,
            column: self.at.column as nat,
            index: self.at.index as nat,
        }
    }
}

impl TokenScanner {
    #[verifier::type_invariant]
    closed spec fn inv(self) -> bool {
        self@.wf()
    }

    /// A scanner at the start of `input_text`, at line 1, column 0.
    pub fn new(input_text: &str) -> (scanner: TokenScanner)
        requires
            text_fits(input_text@),
        ensures
            scanner@ == ScanState::start(input_text@),
            scanner@.wf(),
    {
        let chars = chars_of(input_text);
        proof {
            assert(chars@.take(0) =~= Seq::<char>::empty());
            lemma_utf8_len_is_encoding_len(chars@);
            lemma_utf8_len_at_least_len(chars@);
        }
        TokenScanner { chars, at: Cursor { pos: 0, line: 1, column: 0, index: 0 } }
    }

    /// The line of the last character consumed: one more than the line ends consumed.
    pub fn line(&self) -> (l: usize)
        ensures
            l == self@.line,
            l == 1 + line_breaks(self@.consumed()),
    {
        proof {
            use_type_invariant(self);
        }
        self.at.line
    }

    /// The column of the last character consumed: the columns consumed since the last
    /// line end.
    pub fn column(&self) -> (c: usize)
        ensures
            c == self@.column,
            c == column_of(self@.consumed()),
    {
        proof {
            use_type_invariant(self);
        }
        self.at.column
    }

    /// The number of bytes consumed: the length of the UTF-8 encoding of the characters
    /// consumed, which leaves the rest of the text, `text[pos..]`, still to scan.
    pub fn index(&self) -> (i: usize)
        ensures
            i == self@.index,
            i == vstd::utf8::encode_utf8(self@.consumed()).len(),
    {
        proof {
            use_type_invariant(self);
            lemma_utf8_len_is_encoding_len(self@.consumed());
        }
        self.at.index
    }

    /// A token of kind `ttype` at the current line and column.
    fn create_token(&self, ttype: TokenType) -> (t: Token)
        ensures
            t@ == self@.token(ttype@),
    {
        Token::new(self.at.line, self.at.column, ttype)
    }

    /// A token of kind `ttype` at the current line and column `col`.
    fn create_token_col(&self, col: usize, ttype: TokenType) -> (t: Token)
        ensures
            t@ == self@.token_at(col as nat, ttype@),
    {
        Token::new(self.at.line, col, ttype)
    }

    /// The next character, not consumed.
    fn peek(&self) -> (c: Option<char>)
        ensures
            c == self@.peek(),
    {
        if self.at.pos < self.chars.len() {
            Some(self.chars[self.at.pos])
        } else {
            None
        }
    }

    /// Consumes the next character and returns it, or `None` at the end of the text.
    /// Keeps the line, column and byte count up to date, and reads a carriage return
    /// followed by a line feed as one line feed.
    pub fn consume(&mut self) -> (c: Option<char>)
        ensures
            (final(self)@, c) == old(self)@.consume(),
    {
        proof {
            use_type_invariant(&*self);
        }
        let at = self.at;
        if at.pos < self.chars.len() {
            let c = self.chars[at.pos];
            proof {
                lemma_consumed_step(self.chars@, at.pos as nat);
                lemma_utf8_len_prefix(self.chars@, (at.pos + 1) as nat);
            }
            let index = at.index + utf8_width_of(c);
            if c == '\n' {
                self.at = Cursor { pos: at.pos + 1, line: at.line + 1, column: 0, index };
                Some('\n')
            } else if c == '\r' {
                if at.pos + 1 < self.chars.len() && self.chars[at.pos + 1] == '\n' {
                    proof {
                        lemma_consumed_step(self.chars@, (at.pos + 1) as nat);
                        lemma_utf8_len_prefix(self.chars@, (at.pos + 2) as nat);
                        let t1 = self.chars@.take(at.pos + 1 as int);
                        let t2 = self.chars@.take(at.pos + 2 as int);
                        assert(line_breaks(t1) == line_breaks(self@.consumed()) + 1);
                        assert(t2.drop_last() == t1 && t2.last() == '\n' && t1.last() == '\r');
                        assert(line_breaks(t2) == line_breaks(t1));
                        assert(column_of(t2) == 0);
                        assert(utf8_width('\n') == 1);
                    }
                    self.at = Cursor { pos: at.pos + 2, line: at.line + 1, column: 0, index: index + 1 };
                    Some('\n')
                } else {
                    self.at = Cursor { pos: at.pos + 1, line: at.line + 1, column: 0, index };
                    Some('\r')
                }
            } else if c == '\t' {
                self.at = Cursor { pos: at.pos + 1, line: at.line, column: at.column + 2, index };
                Some('\t')
            } else {
                self.at = Cursor { pos: at.pos + 1, line: at.line, column: at.column + 1, index };
                Some(c)
            }
        } else {
            None
        }
    }

    /// Consumes the whitespace before the next other character.
    pub fn remove_whitespace(&mut self)
        ensures
            final(self)@ == old(self)@.skip_whitespace(),
    {
        loop
            invariant
                self@.skip_whitespace() == old(self)@.skip_whitespace(),
            ensures
                self@ == old(self)@.skip_whitespace(),
            decreases self@.text.len() - self@.pos,
        {
            proof {
                use_type_invariant(&*self);
            }
            match self.peek() {
                Some(c) => {
                    if c == '\n' || c == '\t' || c == ' ' || c == '\r' {
                        self.consume();
                    } else {
                        return;
                    }
                },
                None => {
                    return;
                },
            }
        }
    }

    /// Consumes the rest of a comment, up to and including the end of its line.
    pub fn consume_comment(&mut self)
        ensures
            final(self)@ == old(self)@.skip_comment(),
    {
        loop
            invariant
                self@.skip_comment() == old(self)@.skip_comment(),
            ensures
                self@ == old(self)@.skip_comment(),
            decreases self@.text.len() - self@.pos,
        {
            proof {
                use_type_invariant(&*self);
            }
            let ghost before = self@;
            match self.consume() {
                Some(c) => {
                    if c == '\n' {
                        return;
                    }
                },
                None => {
                    return;
                },
            }
            assert(self@ == before.consume().0);
        }
    }

    /// After a `/`: the division token, or `None` when a second `/` starts a comment,
    /// which is consumed.
    pub fn lex_slash(&mut self) -> (t: Option<Token>)
        ensures
            final(self)@ == old(self)@.lex_slash().0,
            t matches Some(t) ==> old(self)@.lex_slash().1 == Some(t@),
            t is None ==> old(self)@.lex_slash().1 is None,
    {
        match self.peek() {
            Some(c) => {
                if c == '/' {
                    self.consume_comment();
                    return None;
                }
            },
            None => {},
        }
        Some(self.create_token(TokenType::Divide))
    }

    /// After a `*`: `*` alone, `*>>`, or an error token when `*>` is not followed by `>`.
    pub fn lex_star(&mut self) -> (t: Token)
        ensures
            (final(self)@, t@) == old(self)@.lex_star(),
    {
        let start_col = self.at.column;
        if self.peek() == Some('>') {
            let _ = self.consume();
            match self.consume() {
                Some(c) => {
                    if c == '>' {
                        return self.create_token_col(start_col, TokenType::HighMultiplication);
                    }
                    let mut msg = string_of("Expected > to finish High Multiplication token but received ");
                    push_char(&mut msg, c);
                    return self.create_token_col(start_col, TokenType::Error(msg));
                },
                None => {
                    return self.create_token_col(
                        start_col,
                        TokenType::Error(string_of("Expected > to finish High Mulitplication Token but found nothing")),
                    );
                },
            }
        }
        self.create_token(TokenType::Times)
    }

    /// After a character that may be followed by `=`.
    fn lex_with_equal(&mut self, with_eq: TokenType, alone: TokenType) -> (t: Token)
        ensures
            (final(self)@, t@) == old(self)@.lex_with_equal(with_eq@, alone@),
    {
        if self.peek() == Some('=') {
            let token = self.create_token_col(self.at.column, with_eq);
            self.consume();
            token
        } else {
            self.create_token(alone)
        }
    }

    /// After a `<`: `<=` or `<`.
    pub fn lex_langle(&mut self) -> (t: Token)
        ensures
            (final(self)@, t@) == old(self)@.lex_with_equal(TokenTypeView::LE, TokenTypeView::LAngle),
    {
        self.lex_with_equal(TokenType::LE, TokenType::LAngle)
    }

    /// After a `>`: `>=` or `>`.
    pub fn lex_rangle(&mut self) -> (t: Token)
        ensures
            (final(self)@, t@) == old(self)@.lex_with_equal(TokenTypeView::GE, TokenTypeView::RAngle),
    {
        self.lex_with_equal(TokenType::GE, TokenType::RAngle)
    }

    /// After a `!`: `!=` or `!`.
    pub fn lex_exclamation(&mut self) -> (t: Token)
        ensures
            (final(self)@, t@) == old(self)@.lex_with_equal(TokenTypeView::NE, TokenTypeView::Exclamation),
    {
        self.lex_with_equal(TokenType::NE, TokenType::Exclamation)
    }

    /// After a `=`: `==` or `=`.
    pub fn lex_equal(&mut self) -> (t: Token)
        ensures
            (final(self)@, t@) == old(self)@.lex_with_equal(TokenTypeView::EQ, TokenTypeView::Assign),
    {
        self.lex_with_equal(TokenType::EQ, TokenType::Assign)
    }
}

/// The view of the result of a hexadecimal escape.
pub open spec fn hex_result_view(r: Result<char, UnexpectedHexEscape>) -> Result<char, Seq<char>> {
    match r {
        Ok(c) => Ok(c),
        Err(e) => Err(e.0@),
    }
}

/// The view of the result of an escape sequence.
pub open spec fn escape_result_view(r: Result<char, String>) -> Result<char, Seq<char>> {
    match r {
        Ok(c) => Ok(c),
        Err(e) => Err(e@),
    }
}

/// `16` to the power `n`.
pub open spec fn pow16(n: nat) -> nat
    decreases n,
{
    if n == 0 {
        1
    } else {
        16 * pow16((n - 1) as nat)
    }
}

proof fn lemma_pow16_bound(n: nat)
    requires
        n <= 6,
    ensures
        pow16(n) <= 0x1000000,
{
    reveal_with_fuel(pow16, 7);
}

/// `prefix` followed by `<line>:<column>`.
fn position_message(prefix: &str, line: usize, column: usize) -> (m: String)
    ensures
        m@ == prefix@ + position_text(line as nat, column as nat),
{
    let mut m = string_of(prefix);
    push_decimal(&mut m, line as u64);
    push_char(&mut m, ':');
    push_decimal(&mut m, column as u64);
    proof {
        reveal_strlit(":");
        assert(m@ =~= prefix@ + position_text(line as nat, column as nat));
    }
    m
}

fn is_digit_char(c: char) -> (b: bool)
    ensures
        b == is_digit(c),
{
    '0' <= c && c <= '9'
}

fn is_alpha_char(c: char) -> (b: bool)
    ensures
        b == is_alpha(c),
{
    ('a' <= c && c <= 'z') || ('A' <= c && c <= 'Z')
}

fn is_hex_digit_char(c: char) -> (b: bool)
    ensures
        b == is_hex_digit(c),
{
    is_digit_char(c) || ('a' <= c && c <= 'f') || ('A' <= c && c <= 'F')
}

fn is_ident_char_exec(c: char) -> (b: bool)
    ensures
        b == is_ident_char(c),
{
    is_alpha_char(c) || is_digit_char(c) || c == '_' || c == '\''
}

fn hex_digit_value_of(c: char) -> (v: u32)
    requires
        is_hex_digit(c),
    ensures
        v == hex_digit_value(c),
        v < 16,
{
    if is_digit_char(c) {
        (c as u32) - ('0' as u32)
    } else if 'a' <= c && c <= 'f' {
        (c as u32) - ('a' as u32) + 10
    } else {
        (c as u32) - ('A' as u32) + 10
    }
}

/// The run `text[from..to]` is all digits, so the digit run from `from` ends where the one from `to` does.
proof fn lemma_digits_end_skip(text: Seq<char>, from: nat, to: nat)
    requires
        from <= to <= text.len(),
        forall|i: int| from <= i < to ==> is_digit(#[trigger] text[i]),
    ensures
        digits_end(text, from) == digits_end(text, to),
    decreases to - from,
{
    if from < to {
        lemma_digits_end_skip(text, from + 1, to);
    }
}

proof fn lemma_ident_end_skip(text: Seq<char>, from: nat, to: nat)
    requires
        from <= to <= text.len(),
        forall|i: int| from <= i < to ==> is_ident_char(#[trigger] text[i]),
    ensures
        ident_end(text, from) == ident_end(text, to),
    decreases to - from,
{
    if from < to {
        lemma_ident_end_skip(text, from + 1, to);
    }
}

impl TokenScanner {
    /// After `\x`: reads `{`, one to six hexadecimal digits and `}`, and returns the
    /// character with that code, or the reason why there is none.
    pub fn hex_to_char(&mut self) -> (r: Result<char, UnexpectedHexEscape>)
        ensures
            (final(self)@, hex_result_view(r)) == old(self)@.hex_escape(),
    {
        let start_col = self.at.column;
        let opened = self.consume();
        if opened != Some('{') {
            return Err(UnexpectedHexEscape(position_message(
                "Expected { to begin Unicode Character hex value at ",
                self.at.line,
                start_col,
            )));
        }
        let mut digits = String::new();
        let mut count: usize = 0;
        let mut value: u32 = 0;
        loop
            invariant
                self@.hex_digits(digits@, start_col as nat) == old(self)@.hex_escape(),
                count == digits@.len(),
                count <= 7,
                value == hex_value(digits@),
                value < pow16(count as nat),
            decreases self@.text.len() - self@.pos,
        {
            proof {
                use_type_invariant(&*self);
            }
            match self.consume() {
                None => {
                    return Err(UnexpectedHexEscape(position_message(
                        "Expected } to end Unicode Character value hex at ",
                        self.at.line,
                        start_col,
                    )));
                },
                Some(c) => {
                    if count >= 7 {
                        return Err(UnexpectedHexEscape(position_message(
                            "Expected } to end Unicode Character value hex at ",
                            self.at.line,
                            start_col,
                        )));
                    }
                    if is_hex_digit_char(c) {
                        let d = hex_digit_value_of(c);
                        proof {
                            lemma_pow16_bound(count as nat);
                            assert(value * 16 + d < pow16(count as nat) * 16) by (nonlinear_arith)
                                requires
                                    value < pow16(count as nat),
                                    d < 16,
                            ;
                            assert(digits@.push(c).drop_last() =~= digits@);
                        }
                        value = value * 16 + d;
                        push_char(&mut digits, c);
                        count = count + 1;
                    } else if c == '}' {
                        if count == 0 {
                            return Err(UnexpectedHexEscape(position_message(
                                "Empty Hex Escape Given at ",
                                self.at.line,
                                start_col,
                            )));
                        }
                        match char_from_u32(value) {
                            Some(ch) => {
                                return Ok(ch);
                            },
                            None => {
                                let mut m = string_of("Hexadecimal number ");
                                push_str(&mut m, digits.as_str());
                                push_str(&mut m, " could not be parsed to valid unicode");
                                return Err(UnexpectedHexEscape(m));
                            },
                        }
                    } else {
                        let mut m = string_of("Expected valid hexadecimal character but got: ");
                        push_char(&mut m, c);
                        return Err(UnexpectedHexEscape(m));
                    }
                },
            }
        }
    }

    /// After a `\`: the character that the escape sequence stands for, or the reason
    /// why it stands for none.
    pub fn process_escape(&mut self) -> (r: Result<char, String>)
        ensures
            (final(self)@, escape_result_view(r)) == old(self)@.escape(),
    {
        match self.consume() {
            Some(c) => {
                if c == 'x' {
                    match self.hex_to_char() {
                        Ok(v) => Ok(v),
                        Err(UnexpectedHexEscape(e)) => Err(e),
                    }
                } else if c == 'n' {
                    Ok('\n')
                } else if c == 'r' {
                    Ok('\r')
                } else if c == 't' {
                    Ok('\t')
                } else if c == '\'' {
                    Ok('\'')
                } else if c == '"' {
                    Ok('"')
                } else if c == '\\' {
                    Ok('\\')
                } else {
                    let mut m = string_of("Unexpected Escape Sequence found: \\");
                    push_char(&mut m, c);
                    Err(m)
                }
            },
            None => Err(string_of(
                "Unfinished Escape Seqeunce. Expected literal to terminate with <escape>' but got nothing",
            )),
        }
    }

    /// The closing `'` of a character literal holding `val`.
    fn close_character(&mut self, val: char, start_col: usize) -> (t: Token)
        ensures
            (final(self)@, t@) == old(self)@.close_character(val, start_col as nat),
    {
        match self.consume() {
            Some(c) => {
                if c == '\'' {
                    self.create_token_col(start_col, TokenType::Character(val))
                } else {
                    let mut m = string_of("Expected character literal to be closed with ' but got ");
                    push_char(&mut m, c);
                    self.create_token_col(start_col, TokenType::Error(m))
                }
            },
            None => self.create_token_col(
                start_col,
                TokenType::Error(string_of(
                    "Unfinished Escape Seqeunce. Expected literal to terminate with <escape>' but got nothing",
                )),
            ),
        }
    }

    /// After a `'`: a character literal, or an error token saying what is wrong with it.
    pub fn lex_character(&mut self) -> (t: Token)
        ensures
            (final(self)@, t@) == old(self)@.lex_character(),
    {
        let start_col = self.at.column;
        let val = match self.consume() {
            Some(c) => {
                if c == '\\' {
                    match self.process_escape() {
                        Ok(v) => v,
                        Err(msg) => {
                            return self.create_token_col(start_col, TokenType::Error(msg));
                        },
                    }
                } else if c == '\'' {
                    return self.create_token_col(start_col, TokenType::Error(string_of("No Character Given")));
                } else {
                    c
                }
            },
            None => {
                return self.create_token_col(
                    start_col,
                    TokenType::Error(string_of("Expected character literal to be closed with ' but got nothing")),
                );
            },
        };
        self.close_character(val, start_col)
    }

    /// After a `"`: a string literal with its escapes replaced, or an error token.
    pub fn lex_string(&mut self) -> (t: Token)
        ensures
            (final(self)@, t@) == old(self)@.lex_string(),
    {
        let mut contents = String::new();
        let start_col = self.at.column;
        loop
            invariant
                self@.string_body(contents@, start_col as nat) == old(self)@.lex_string(),
            decreases self@.text.len() - self@.pos,
        {
            proof {
                use_type_invariant(&*self);
            }
            match self.consume() {
                Some(c) => {
                    if c == '"' {
                        return self.create_token_col(start_col, TokenType::String(contents));
                    } else if c == '\\' {
                        proof {
                            lemma_escape_advances(self@);
                        }
                        match self.process_escape() {
                            Ok(v) => push_char(&mut contents, v),
                            Err(msg) => {
                                return self.create_token_col(start_col, TokenType::Error(msg));
                            },
                        }
                    } else {
                        push_char(&mut contents, c);
                    }
                },
                None => {
                    return self.create_token_col(
                        start_col,
                        TokenType::Error(position_message("Expected \" to close String at ", self.at.line, start_col)),
                    );
                },
            }
        }
    }
}

impl TokenScanner {
    /// After a digit: the longest run of digits from that one on, as an integer token,
    /// or an error token when the digits do not fit in a `u64`.
    pub fn lex_integer(&mut self) -> (t: Token)
        requires
            old(self)@.pos >= 1,
            (old(self)@.text[old(self)@.pos - 1] as u32) < 0x80,
        ensures
            (final(self)@, t@) == old(self)@.lex_integer(),
    {
        proof {
            use_type_invariant(&*self);
        }
        let ghost s0 = self@;
        let start_col = self.at.column;
        let first = self.chars[self.at.pos - 1];
        let first_is_digit = is_digit_char(first);
        // `begin` is where the digits whose value `value` holds begin.
        let begin: usize = if first_is_digit { self.at.pos - 1 } else { self.at.pos };
        let mut value: u64 = if first_is_digit { ((first as u32) - ('0' as u32)) as u64 } else { 0 };
        let mut overflow = false;
        proof {
            let d = self.chars@.subrange(begin as int, self.at.pos as int);
            assert(decimal_value(Seq::<char>::empty()) == 0);
            if first_is_digit {
                assert(d.drop_last() =~= Seq::<char>::empty());
                assert(d.last() == first);
            } else {
                assert(d =~= Seq::<char>::empty());
            }
        }
        loop
            invariant
                s0.wf(),
                self@ == s0.advance_plain(self@.pos),
                s0.pos <= self@.pos <= s0.text.len(),
                begin == (if is_digit(s0.text[s0.pos - 1]) { s0.pos - 1 } else { s0.pos as int }),
                first == s0.text[s0.pos - 1],
                first_is_digit == is_digit(first),
                start_col == s0.column,
                forall|i: int| s0.pos <= i < self@.pos ==> is_digit(#[trigger] s0.text[i]),
                !overflow ==> value == decimal_value(s0.text.subrange(begin as int, self@.pos as int)),
                overflow ==> decimal_value(s0.text.subrange(begin as int, self@.pos as int)) > u64::MAX,
            ensures
                self@.pos >= s0.text.len() || !is_digit(s0.text[self@.pos as int]),
            decreases self@.text.len() - self@.pos,
        {
            proof {
                use_type_invariant(&*self);
            }
            match self.peek() {
                Some(c) => {
                    if !is_digit_char(c) {
                        break;
                    }
                    let p = self.at.pos;
                    self.consume();
                    let d = ((c as u32) - ('0' as u32)) as u64;
                    proof {
                        let old_run = s0.text.subrange(begin as int, p as int);
                        let run = s0.text.subrange(begin as int, p + 1);
                        assert(run.drop_last() =~= old_run);
                        assert(run.last() == c);
                    }
                    if !overflow {
                        match value.checked_mul(10) {
                            Some(v) => match v.checked_add(d) {
                                Some(w) => {
                                    value = w;
                                },
                                None => {
                                    overflow = true;
                                },
                            },
                            None => {
                                overflow = true;
                            },
                        }
                    }
                },
                None => {
                    break;
                },
            }
        }
        proof {
            lemma_digits_end_skip(s0.text, s0.pos, self@.pos);
            if !first_is_digit {
                assert(s0.text.subrange(begin as int, self@.pos as int)
                    =~= s0.text.subrange(s0.pos as int, digits_end(s0.text, s0.pos) as int));
            }
        }
        if first_is_digit || (first == '+' && self.at.pos > begin) {
            if overflow {
                self.create_token_col(
                    start_col,
                    TokenType::Error(string_of("Trouble Parsing int: number too large to fit in target type")),
                )
            } else {
                self.create_token_col(start_col, TokenType::Integer(value))
            }
        } else {
            self.create_token_col(
                start_col,
                TokenType::Error(string_of("Trouble Parsing int: invalid digit found in string")),
            )
        }
    }

    /// After a letter: the longest run of letters, digits, `_` and `'` from that one
    /// on, as a keyword (`int`, `bool`, `while`, `use`, `return`, `length`, `true`,
    /// `false`, `if`, `else`) or an identifier.
    pub fn lex_key_or_identifier(&mut self) -> (t: Token)
        requires
            old(self)@.pos >= 1,
            (old(self)@.text[old(self)@.pos - 1] as u32) < 0x80,
        ensures
            (final(self)@, t@) == old(self)@.lex_key_or_identifier(),
    {
        proof {
            use_type_invariant(&*self);
        }
        let ghost s0 = self@;
        let start_col = self.at.column;
        let first = self.at.pos - 1;
        loop
            invariant
                s0.wf(),
                self@ == s0.advance_plain(self@.pos),
                s0.pos <= self@.pos <= s0.text.len(),
                first == s0.pos - 1,
                start_col == s0.column,
                forall|i: int| s0.pos <= i < self@.pos ==> is_ident_char(#[trigger] s0.text[i]),
            ensures
                self@.pos >= s0.text.len() || !is_ident_char(s0.text[self@.pos as int]),
            decreases self@.text.len() - self@.pos,
        {
            proof {
                use_type_invariant(&*self);
            }
            match self.peek() {
                Some(c) => {
                    if !is_ident_char_exec(c) {
                        break;
                    }
                    self.consume();
                },
                None => {
                    break;
                },
            }
        }
        proof {
            lemma_ident_end_skip(s0.text, s0.pos, self@.pos);
        }
        let end = self.at.pos;
        let ttype = if range_is(&self.chars, first, end, "int") {
            TokenType::Int
        } else if range_is(&self.chars, first, end, "bool") {
            TokenType::Bool
        } else if range_is(&self.chars, first, end, "while") {
            TokenType::While
        } else if range_is(&self.chars, first, end, "use") {
            TokenType::Use
        } else if range_is(&self.chars, first, end, "return") {
            TokenType::Return
        } else if range_is(&self.chars, first, end, "length") {
            TokenType::Length
        } else if range_is(&self.chars, first, end, "true") {
            TokenType::True
        } else if range_is(&self.chars, first, end, "false") {
            TokenType::False
        } else if range_is(&self.chars, first, end, "if") {
            TokenType::If
        } else if range_is(&self.chars, first, end, "else") {
            TokenType::Else
        } else {
            TokenType::Identifier(string_of_range(&self.chars, first, end))
        };
        self.create_token_col(start_col, ttype)
    }

    /// The token that starts with `c`, just consumed (`/` aside).
    fn lex_after(&mut self, c: char) -> (t: Token)
        requires
            is_digit(c) || is_alpha(c) ==> old(self)@.pos >= 1 && old(self)@.text[old(self)@.pos - 1] == c,
        ensures
            (final(self)@, t@) == old(self)@.lex_after(c),
    {
        if c == '(' {
            self.create_token(TokenType::LParen)
        } else if c == ')' {
            self.create_token(TokenType::RParen)
        } else if c == '[' {
            self.create_token(TokenType::LBracket)
        } else if c == ']' {
            self.create_token(TokenType::RBracket)
        } else if c == '{' {
            self.create_token(TokenType::LBrace)
        } else if c == '}' {
            self.create_token(TokenType::RBrace)
        } else if c == ',' {
            self.create_token(TokenType::Comma)
        } else if c == '.' {
            self.create_token(TokenType::Period)
        } else if c == ';' {
            self.create_token(TokenType::Semicolon)
        } else if c == ':' {
            self.create_token(TokenType::Colon)
        } else if c == '+' {
            self.create_token(TokenType::Plus)
        } else if c == '-' {
            self.create_token(TokenType::Minus)
        } else if c == '%' {
            self.create_token(TokenType::Mod)
        } else if c == '&' {
            self.create_token(TokenType::And)
        } else if c == '|' {
            self.create_token(TokenType::Or)
        } else if c == '_' {
            self.create_token(TokenType::Underscore)
        } else if c == '*' {
            self.lex_star()
        } else if c == '!' {
            self.lex_exclamation()
        } else if c == '<' {
            self.lex_langle()
        } else if c == '>' {
            self.lex_rangle()
        } else if c == '=' {
            self.lex_equal()
        } else if c == '"' {
            self.lex_string()
        } else if c == '\'' {
            self.lex_character()
        } else if is_digit_char(c) {
            self.lex_integer()
        } else if is_alpha_char(c) {
            self.lex_key_or_identifier()
        } else {
            let mut m = string_of("Unexpected character: ");
            push_char(&mut m, c);
            self.create_token(TokenType::Error(m))
        }
    }

    /// The next token after whitespace and comments, or `None` when the text is used up.
    /// The token may be an error token. Yielding a token consumes at least one character,
    /// so a loop that calls this until `None` makes at most one call more than there are
    /// characters.
    pub fn next_token(&mut self) -> (t: Option<Token>)
        ensures
            final(self)@ == old(self)@.next_token().0,
            final(self)@.wf(),
            t matches Some(t) ==> old(self)@.next_token().1 == Some(t@),
            t is None ==> old(self)@.next_token().1 is None,
            t is Some ==> old(self)@.pos < final(self)@.pos && old(self)@.index < final(self)@.index,
    {
        let ghost s0 = self@;
        proof {
            use_type_invariant(&*self);
            lemma_next_token_advances(s0);
        }
        loop
            invariant
                self@.next_token() == old(self)@.next_token(),
                s0 == old(self)@,
                s0.wf(),
                s0.next_token().1 is Some ==> s0.pos < s0.next_token().0.pos,
                s0.next_token().0.text == s0.text,
            decreases self@.text.len() - self@.pos,
        {
            proof {
                use_type_invariant(&*self);
            }
            let ghost before = self@;
            self.remove_whitespace();
            match self.consume() {
                None => {
                    proof {
                        use_type_invariant(&*self);
                    }
                    return None;
                },
                Some(c) => {
                    if c == '/' {
                        let ghost s2 = self@;
                        match self.lex_slash() {
                            Some(t) => {
                                proof {
                                    use_type_invariant(&*self);
                                    assert(self@ == s0.next_token().0);
                                    assert(s0.next_token().1 == Some(t@));
                                    lemma_utf8_len_grows(s0.text, s0.pos, self@.pos);
                                }
                                return Some(t);
                            },
                            None => {
                                proof {
                                    lemma_skip_whitespace_advances(before);
                                    lemma_skip_comment_advances(s2);
                                }
                            },
                        }
                    } else {
                        let t = self.lex_after(c);
                        proof {
                            use_type_invariant(&*self);
                            assert(self@ == s0.next_token().0);
                            assert(s0.next_token().1 == Some(t@));
                            lemma_utf8_len_grows(s0.text, s0.pos, self@.pos);
                        }
                        return Some(t);
                    }
                },
            }
        }
    }
}

} // verus!
