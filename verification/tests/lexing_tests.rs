use chuda_lexer::cli::{parse_args, ArgsError, Task};
use chuda_lexer::grammar::Terminal;
use chuda_lexer::token_scanner::TokenScanner;
use chuda_lexer::{lex_files, LexerError, Token, TokenType, Tokenizer};
use std::collections::VecDeque;

const ALL_TOKENS: &str = "(){}[],.;:+-%&|_**>>!!=<<=>>====/\t//Comment\n\
\"Hello Worl\\x{64}\"\'c\'12345int chicken_nugget\n\
int bool true false while return length use if else\
\n     ~`?^$#@";

#[test]
fn lex_file_ends_with_eof_past_the_last_column() {
    let tokens = Tokenizer::new().lex_file("Pizza:int=10");
    let mut targets: VecDeque<Token> = VecDeque::new();
    targets.push_back(Token::new(1, 1, TokenType::Identifier("Pizza".to_string())));
    targets.push_back(Token::new(1, 6, TokenType::Colon));
    targets.push_back(Token::new(1, 7, TokenType::Int));
    targets.push_back(Token::new(1, 10, TokenType::Assign));
    targets.push_back(Token::new(1, 11, TokenType::Integer(10)));
    targets.push_back(Token::new(1, 13, TokenType::Eof));
    assert_eq!(tokens, targets);
}

#[test]
fn lex_file_stops_at_the_first_error_token() {
    let tokens = Tokenizer::new().lex_file("x:bool = 4all\nx = ''\ny");
    let mut targets = VecDeque::new();
    targets.push_back(Token::new(1, 1, TokenType::Identifier("x".to_string())));
    targets.push_back(Token::new(1, 2, TokenType::Colon));
    targets.push_back(Token::new(1, 3, TokenType::Bool));
    targets.push_back(Token::new(1, 8, TokenType::Assign));
    targets.push_back(Token::new(1, 10, TokenType::Integer(4)));
    targets.push_back(Token::new(1, 11, TokenType::Identifier("all".to_string())));
    targets.push_back(Token::new(2, 1, TokenType::Identifier("x".to_string())));
    targets.push_back(Token::new(2, 3, TokenType::Assign));
    targets.push_back(Token::new(2, 5, TokenType::Error("No Character Given".to_string())));
    assert_eq!(tokens, targets);
}

#[test]
fn lex_file_of_empty_and_blank_texts() {
    let tokens = Tokenizer::new().lex_file("");
    assert_eq!(tokens, VecDeque::from(vec![Token::new(1, 1, TokenType::Eof)]));
    let tokens = Tokenizer::default().lex_file("  // note\n\t");
    assert_eq!(tokens, VecDeque::from(vec![Token::new(2, 3, TokenType::Eof)]));
}

#[test]
fn lex_file_writes_out_all_tokens() {
    let outputs = vec![
        "1:1 (", "1:2 )", "1:3 {", "1:4 }", "1:5 [", "1:6 ]", "1:7 ,", "1:8 .", "1:9 ;", "1:10 :",
        "1:11 +", "1:12 -", "1:13 %", "1:14 &", "1:15 |", "1:16 _", "1:17 *", "1:18 *>>", "1:21 !",
        "1:22 !=", "1:24 <", "1:25 <=", "1:27 >", "1:28 >=", "1:30 ==", "1:32 =", "1:33 /",
        "2:1 string Hello World", "2:19 character c", "2:22 integer 12345", "2:27 int",
        "2:31 id chicken_nugget", "3:1 int", "3:5 bool", "3:10 true", "3:15 false", "3:21 while",
        "3:27 return", "3:34 length", "3:41 use", "3:45 if", "3:48 else",
        "4:6 error: Unexpected character: ~",
    ];
    let tokens = Tokenizer::new().lex_file(ALL_TOKENS);
    let written: Vec<String> = tokens.iter().map(|t| t.to_string()).collect();
    assert_eq!(written, outputs);
}

#[test]
fn lex_files_reports_error_tokens_in_order() {
    let texts = vec![
        "Pizza:int=10".to_string(),
        "a ~ b".to_string(),
        "x = 1".to_string(),
        "'ab'".to_string(),
    ];
    let (tokens, errs) = lex_files(&texts);
    assert_eq!(tokens.len(), 4);
    assert_eq!(tokens[0].len(), 6);
    assert_eq!(tokens[2].back(), Some(&Token::new(1, 6, TokenType::Eof)));
    let errs = errs.expect("two texts end with an error token");
    let messages: Vec<String> = errs.iter().map(|e| e.to_string()).collect();
    assert_eq!(
        messages,
        vec![
            "Unexpected character: ~".to_string(),
            "Expected character literal to be closed with ' but got b".to_string(),
        ]
    );
    match &errs[0] {
        LexerError::ErrorToken(msg) => assert_eq!(msg, "Unexpected character: ~"),
    }
}

#[test]
fn lex_files_without_errors() {
    let (tokens, errs) = lex_files(&vec!["Pizza:int=10".to_string(), String::new()]);
    assert!(errs.is_none());
    assert_eq!(tokens.len(), 2);
    let (tokens, errs) = lex_files(&[]);
    assert!(tokens.is_empty());
    assert!(errs.is_none());
}

#[test]
fn token_type_display() {
    assert_eq!(TokenType::Identifier("x".to_string()).to_string(), "id x");
    assert_eq!(TokenType::Integer(0).to_string(), "integer 0");
    assert_eq!(TokenType::Integer(18446744073709551615).to_string(), "integer 18446744073709551615");
    assert_eq!(TokenType::Character('\n').to_string(), "character \n");
    assert_eq!(TokenType::String("a b".to_string()).to_string(), "string a b");
    assert_eq!(TokenType::HighMultiplication.to_string(), "*>>");
    assert_eq!(TokenType::Length.to_string(), "length");
    assert_eq!(TokenType::Error("bad".to_string()).to_string(), "error: bad");
    assert_eq!(TokenType::Eof.to_string(), "");
    assert_eq!(Token::new(12, 305, TokenType::NE).to_string(), "12:305 !=");
    assert_eq!(Token::new(1, 13, TokenType::Eof).to_string(), "1:13 ");
    assert_eq!(Token::new(3, 4, TokenType::Int).token_type(), &TokenType::Int);
}

#[test]
fn terminals_of_tokens() {
    assert_eq!(Terminal::try_from(Token::new(1, 1, TokenType::Identifier("x".to_string()))), Ok(Terminal::Identifier));
    assert_eq!(Terminal::try_from(Token::new(1, 1, TokenType::Integer(3))), Ok(Terminal::Integer));
    assert_eq!(Terminal::try_from(Token::new(1, 1, TokenType::HighMultiplication)), Ok(Terminal::HighMultiplication));
    assert_eq!(Terminal::try_from(Token::new(1, 1, TokenType::Eof)), Ok(Terminal::Eof));
    assert_eq!(
        Terminal::try_from(Token::new(1, 1, TokenType::Error("oops".to_string()))),
        Err("Got Unexpected Error Token in Parsing: oops".to_string())
    );
}

#[test]
fn crlf_is_one_line_end() {
    let mut scanner = TokenScanner::new("a\r\nb\rc");
    assert_eq!(scanner.next_token(), Some(Token::new(1, 1, TokenType::Identifier("a".to_string()))));
    assert_eq!(scanner.consume(), Some('\n'));
    assert_eq!((scanner.line(), scanner.column(), scanner.index()), (2, 0, 3));
    assert_eq!(scanner.next_token(), Some(Token::new(2, 1, TokenType::Identifier("b".to_string()))));
    assert_eq!(scanner.next_token(), Some(Token::new(3, 1, TokenType::Identifier("c".to_string()))));
    assert_eq!(scanner.next_token(), None);
    assert_eq!(scanner.next_token(), None);
}

#[test]
fn utf8_widths_are_counted_in_index() {
    let mut scanner = TokenScanner::new("é€😀a");
    scanner.consume();
    assert_eq!(scanner.index(), 2);
    scanner.consume();
    assert_eq!(scanner.index(), 5);
    scanner.consume();
    assert_eq!(scanner.index(), 9);
    scanner.consume();
    assert_eq!((scanner.index(), scanner.column()), (10, 4));
}

#[test]
fn integers_after_other_first_characters() {
    let mut scanner = TokenScanner::new("+12x");
    scanner.consume();
    assert_eq!(scanner.lex_integer(), Token::new(1, 1, TokenType::Integer(12)));
    let mut scanner = TokenScanner::new("+x");
    scanner.consume();
    assert_eq!(
        scanner.lex_integer(),
        Token::new(1, 1, TokenType::Error("Trouble Parsing int: invalid digit found in string".to_string()))
    );
    let mut scanner = TokenScanner::new("a12");
    scanner.consume();
    assert_eq!(
        scanner.lex_integer(),
        Token::new(1, 1, TokenType::Error("Trouble Parsing int: invalid digit found in string".to_string()))
    );
    let mut scanner = TokenScanner::new("00018446744073709551615;");
    scanner.consume();
    assert_eq!(scanner.lex_integer(), Token::new(1, 1, TokenType::Integer(18446744073709551615)));
    assert_eq!(scanner.next_token(), Some(Token::new(1, 24, TokenType::Semicolon)));
}

#[test]
fn identifiers_take_the_longest_run() {
    let mut scanner = TokenScanner::new("if' x_1 elsewhere else");
    assert_eq!(scanner.next_token(), Some(Token::new(1, 1, TokenType::Identifier("if'".to_string()))));
    assert_eq!(scanner.next_token(), Some(Token::new(1, 5, TokenType::Identifier("x_1".to_string()))));
    assert_eq!(scanner.next_token(), Some(Token::new(1, 9, TokenType::Identifier("elsewhere".to_string()))));
    assert_eq!(scanner.next_token(), Some(Token::new(1, 19, TokenType::Else)));
    assert_eq!(scanner.next_token(), None);
}

#[test]
fn multi_line_string_stands_at_its_last_line() {
    let mut scanner = TokenScanner::new("  \"a\nb\" \"\\q\"");
    assert_eq!(scanner.next_token(), Some(Token::new(2, 3, TokenType::String("a\nb".to_string()))));
    assert_eq!(
        scanner.next_token(),
        Some(Token::new(2, 4, TokenType::Error("Unexpected Escape Sequence found: \\q".to_string())))
    );
}

#[test]
fn escapes_in_character_literals() {
    let mut scanner = TokenScanner::new("'\\x{1F600}' '\\x{D800}' '\\x{'");
    assert_eq!(scanner.next_token(), Some(Token::new(1, 1, TokenType::Character('😀'))));
    assert_eq!(
        scanner.next_token(),
        Some(Token::new(1, 13, TokenType::Error("Hexadecimal number D800 could not be parsed to valid unicode".to_string())))
    );
    assert_eq!(scanner.next_token(), Some(Token::new(1, 22, TokenType::Character(' '))));
    assert_eq!(
        scanner.next_token(),
        Some(Token::new(1, 25, TokenType::Error("Unexpected character: \\".to_string())))
    );
    let mut scanner = TokenScanner::new("'\\x{'");
    assert_eq!(
        scanner.next_token(),
        Some(Token::new(1, 1, TokenType::Error("Expected valid hexadecimal character but got: '".to_string())))
    );
}

#[test]
fn command_lines() {
    let args = |v: &[&str]| v.iter().map(|s| s.to_string()).collect::<Vec<String>>();
    assert_eq!(parse_args(&args(&["chudac"])).err(), Some(ArgsError::NotEnoughArguments));
    let config = parse_args(&args(&["chudac", "--lex", "-D", "out", "a.chuda", "b.chudi"])).expect("valid");
    assert!(config.lex && !config.help);
    assert_eq!(config.path, Some("out".to_string()));
    assert_eq!(config.source_files, args(&["a.chuda", "b.chudi"]));
    assert_eq!(config.task(), Task::Lex);
    assert_eq!(parse_args(&args(&["chudac", "a.chuda", "--lex"])).err(), Some(ArgsError::OptionAfterFile));
    assert_eq!(parse_args(&args(&["chudac", "-D", "x", "-D", "y"])).err(), Some(ArgsError::PathGivenTwice));
    let config = parse_args(&args(&["chudac", "--help", "-D"])).expect("valid");
    assert_eq!(config.path, None);
    assert_eq!(config.task(), Task::Help);
    let config = parse_args(&args(&["chudac", "a.chuda"])).expect("valid");
    assert_eq!(config.task(), Task::Unhandled);
    let config = parse_args(&args(&["chudac", "--lex"])).expect("valid");
    assert_eq!(config.task(), Task::Help);
}

#[test]
fn fixed_spellings_lex_back_to_their_kind() {
    let kinds = vec![
        TokenType::LParen, TokenType::RParen, TokenType::LBracket, TokenType::RBracket,
        TokenType::LBrace, TokenType::RBrace, TokenType::LAngle, TokenType::RAngle,
        TokenType::Semicolon, TokenType::Colon, TokenType::Plus, TokenType::Times,
        TokenType::HighMultiplication, TokenType::Minus, TokenType::Divide, TokenType::Mod,
        TokenType::EQ, TokenType::NE, TokenType::LE, TokenType::GE, TokenType::Assign,
        TokenType::And, TokenType::Or, TokenType::Exclamation, TokenType::Period,
        TokenType::Comma, TokenType::Underscore, TokenType::Int, TokenType::Bool,
        TokenType::True, TokenType::False, TokenType::While, TokenType::Use, TokenType::If,
        TokenType::Else, TokenType::Return, TokenType::Length,
    ];
    for kind in kinds {
        let text = kind.to_string();
        let mut scanner = TokenScanner::new(&text);
        assert_eq!(scanner.next_token(), Some(Token::new(1, 1, kind)));
        assert_eq!(scanner.next_token(), None);
    }
}

#[test]
fn no_token_exactly_when_only_blanks_remain() {
    let mut scanner = TokenScanner::new("  // note\r\n\t// last");
    assert_eq!(scanner.next_token(), None);
    assert_eq!(scanner.index(), "  // note\r\n\t// last".len());
    let mut scanner = TokenScanner::new(" / ");
    assert_eq!(scanner.next_token(), Some(Token::new(1, 2, TokenType::Divide)));
    assert_eq!(scanner.next_token(), None);
    let mut scanner = TokenScanner::new("// a\rb");
    assert_eq!(scanner.next_token(), None);
}

#[test]
fn each_token_consumes_bytes() {
    let mut scanner = TokenScanner::new("é+\"ü\"");
    let mut last = scanner.index();
    while let Some(_) = scanner.next_token() {
        assert!(scanner.index() > last);
        last = scanner.index();
    }
    assert_eq!(last, "é+\"ü\"".len());
}

#[test]
fn line_and_column_count_the_consumed_text() {
    let mut scanner = TokenScanner::new("a\r\rb\n\tc\r\n  d");
    let mut seen = vec![];
    while let Some(t) = scanner.next_token() {
        seen.push(t);
    }
    assert_eq!(
        seen,
        vec![
            Token::new(1, 1, TokenType::Identifier("a".to_string())),
            Token::new(3, 1, TokenType::Identifier("b".to_string())),
            Token::new(4, 3, TokenType::Identifier("c".to_string())),
            Token::new(5, 3, TokenType::Identifier("d".to_string())),
        ]
    );
    assert_eq!((scanner.line(), scanner.column()), (5, 3));
}
