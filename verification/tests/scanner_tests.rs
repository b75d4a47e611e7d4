use std::collections::VecDeque;
use chuda_lexer::token_scanner::{TokenScanner, UnexpectedHexEscape};
use chuda_lexer::{Token, TokenType};

const WHITESPACE: &str = "1\r\n2\n3\r4\t5 ";
const INPUT_TEXT: &str =
    "i : int = 0\r\nz:int=1+2+3\ns: int[] = \"Hello\"\nb:bool, i:int = f(x)";

#[test]
fn test_consume_whitespace() {
    let mut scanner: TokenScanner = TokenScanner::new(WHITESPACE);
    assert!(
        scanner.line() == 1 && scanner.column() == 0 && scanner.index() == 0,
        "Debug Info:{scanner:?}"
    );
    let cases = vec![
        (Some('1'), 1, 1, 1),
        (Some('\n'), 2, 0, 3),
        (Some('2'), 2, 1, 4),
        (Some('\n'), 3, 0, 5),
        (Some('3'), 3, 1, 6),
        (Some('\r'), 4, 0, 7),
        (Some('4'), 4, 1, 8),
        (Some('\t'), 4, 3, 9),
        (Some('5'), 4, 4, 10),
        (Some(' '), 4, 5, 11),
    ];
    for case in cases {
        assert_eq!(
            (
                scanner.consume(),
                scanner.line(),
                scanner.column(),
                scanner.index()
            ),
            case
        );
    }

    assert!(scanner.consume().is_none());
}

#[test]
fn test_remove_whitespace() {
    let mut scanner: TokenScanner = TokenScanner::new("\t     \nWhiteSpace\r\n    ");
    let chars = vec!['W', 'h', 'i', 't', 'e', 'S', 'p', 'a', 'c', 'e'];
    for i in 0..10 {
        scanner.remove_whitespace();
        assert_eq!(chars[i], scanner.consume().expect("None found"))
    }
    scanner.remove_whitespace();
    assert_eq!(None, scanner.consume());
}

#[test]
fn test_consume_comment() {
    let mut scanner: TokenScanner = TokenScanner::new(
        "//This Comment Will Be Consumed\nnot_this//Same line Comment\n//Also not read",
    );
    let chars = vec!['n', 'o', 't', '_', 't', 'h', 'i', 's'];
    scanner.consume_comment();
    for i in 0..8 {
        assert_eq!(chars[i], scanner.consume().expect("None found"))
    }
    scanner.consume_comment();
    scanner.consume_comment();
    assert!(scanner.consume().is_none())
}

#[test]
fn test_lex_slash() {
    let mut scanner = TokenScanner::new("1/2//COMMENT");
    scanner.consume();
    scanner.consume();
    assert_eq!(
        scanner.lex_slash().unwrap(),
        Token::new(1, 2, TokenType::Divide)
    );
    scanner.consume();
    assert_eq!(scanner.lex_slash(), None);
    assert_eq!(scanner.consume(), None);
}

#[test]
fn test_lex_star() {
    let cases = vec![
        ("1*2", 2, Token::new(1, 2, TokenType::Times)),
        (
            "2147483668*>>2147483668",
            11,
            Token::new(1, 11, TokenType::HighMultiplication),
        ),
        (
            "*>a",
            1,
            Token::new(
                1,
                1,
                TokenType::Error(format!(
                    "Expected > to finish High Multiplication token but received {}",
                    'a'
                )),
            ),
        ),
        (
            "*>",
            1,
            Token::new(
                1,
                1,
                TokenType::Error(
                    "Expected > to finish High Mulitplication Token but found nothing"
                        .to_string(),
                ),
            ),
        ),
    ];
    for (input, consume, output) in cases {
        let mut scanner = TokenScanner::new(input);
        for _ in 0..consume {
            scanner.consume();
        }
        assert_eq!(scanner.lex_star(), output)
    }
}

#[test]
fn test_hex_char() {
    let non_hex_chars = vec![
        '`', '~', '!', '@', '#', '$', '%', '^', '&', '*', '(', ')', '-', '_', '+', '=', '[',
        '{', ']', '\\', '|', '\'', '\"', ':', ';', '<', ',', '>', '.', '/', '?', 'g', 'h', 'i',
        'j', 'k', 'l', 'm', 'n', 'o', 'p', 'q', 'r', 's', 't', 'u', 'v', 'w', 'x', 'y', 'z',
        'G', 'H', 'I', 'J', 'K', 'L', 'M', 'N', 'O', 'P', 'Q', 'R', 'S', 'T', 'U', 'V', 'R',
        'X', 'Y', 'Z',
    ];
    let mut cases = vec![
        ("{10FFFF}".to_string(), Ok('\u{10FFFF}')),
        (
            "ABCDEF}".to_string(),
            Err(UnexpectedHexEscape(format!(
                "Expected {{ to begin Unicode Character hex value at {}:{}",
                1, 0
            ))),
        ),
        (
            "{AAA AAA}".to_string(),
            Err(UnexpectedHexEscape(
                "Expected valid hexadecimal character but got:  ".to_string(),
            )),
        ),
        (
            "{11FFFF}".to_string(),
            Err(UnexpectedHexEscape(format!(
                "Hexadecimal number {} could not be parsed to valid unicode",
                "11FFFF"
            ))),
        ),
        (
            "{124456".to_string(),
            Err(UnexpectedHexEscape(format!(
                "Expected }} to end Unicode Character value hex at {}:{}",
                1, 0
            ))),
        ),
        (
            "{}".to_string(),
            Err(UnexpectedHexEscape(format!(
                "Empty Hex Escape Given at {}:{}",
                1, 0
            ))),
        ),
        (
            "{1111111}".to_string(),
            Err(UnexpectedHexEscape(format!(
                "Expected }} to end Unicode Character value hex at {}:{}",
                1, 0
            ))),
        ),
    ];
    for c in non_hex_chars {
        cases.push((
            format!("{{{}}}", &c),
            Err(UnexpectedHexEscape(format!(
                "Expected valid hexadecimal character but got: {}",
                c
            ))),
        ))
    }
    for (input, output) in cases {
        let mut scanner = TokenScanner::new(input.as_str());
        assert_eq!(scanner.hex_to_char(), output);
    }
}

#[test]
fn test_lex_char() {
    let cases = vec![
        (r#"'\n'"#, 1 ,Token::new(1, 1, TokenType::Character('\n'))),
        (r#"'\t'"#, 1, 
            Token::new(1, 1, TokenType::Character('\t'))
        ),
        (r#"'\r'"#, 1, 
            Token::new(1, 1, TokenType::Character('\r'))
        ),
        (r#"'\''"#, 1, 
            Token::new(1, 1, TokenType::Character('\''))
        ),
        (r#"'\"'"#, 1, 
            Token::new(1, 1, TokenType::Character('\"'))
        ),
        (r#"'\\'"#, 1, 
            Token::new(1, 1, TokenType::Character('\\'))
        ),
        (r#"'\x{64}'"#, 1, 
            Token::new(1, 1, TokenType::Character('d'))
        ),
        ("\'\'", 1, Token::new(1, 1, TokenType::Error("No Character Given".to_string()))),
        ("\'\\b\'", 1,
            Token::new(
                1,
                1,
                TokenType::Error("Unexpected Escape Sequence found: \\b".to_string())
            )),
        ("\'\\x{FFFFFF}\'", 1,
            Token::new(
                1,
                1,
                TokenType::Error(
                    "Hexadecimal number FFFFFF could not be parsed to valid unicode".to_string()
                )
            )),
        ("\'\\", 1,
            Token::new(
                1,
                1,
                TokenType::Error(String::from(
                    "Unfinished Escape Seqeunce. Expected literal to terminate with <escape>\' but got nothing",
                ))
            )
        ),
        ("\'aa\'", 1,
            Token::new(
                1,
                1,
                TokenType::Error(format!(
                    "Expected character literal to be closed with \' but got {}",
                    'a'
                ))
            )
        ),
        ("\'a", 1, 
            Token::new(1, 1, TokenType::Error("Unfinished Escape Seqeunce. Expected literal to terminate with <escape>\' but got nothing".to_string()))),
        ("\'", 1, 
            Token::new(
                1,
                1,
                TokenType::Error(
                    "Expected character literal to be closed with \' but got nothing".to_string()
                )
            )
        ),
        ("\'z\'", 1,
            Token::new(1, 1, TokenType::Character('z'))
        ),
    ];
    for (input, consume, output) in cases {
        let mut scanner = TokenScanner::new(input);
        for _ in 0..consume {
            scanner.consume();
        }
        assert_eq!(scanner.lex_character(), output);
    }
}

#[test]
fn test_lex_string() {
    let cases = vec![
        (
            "\"Hello Worl\\x{64}!\"",
            1,
            Token::new(1, 1, TokenType::String("Hello World!".to_string())),
        ),
        (
            "\"Hello",
            1,
            Token::new(
                1,
                1,
                TokenType::Error(format!("Expected \" to close String at 1:1",)),
            ),
        ),
        (
            "\"",
            1,
            Token::new(
                1,
                1,
                TokenType::Error(format!("Expected \" to close String at 1:1")),
            ),
        ),
        (
            "\"\\d\"",
            1,
            Token::new(
                1,
                1,
                TokenType::Error("Unexpected Escape Sequence found: \\d".to_string()),
            ),
        ),
    ];
    for (input, consume, output) in cases {
        let mut scanner = TokenScanner::new(input);
        for _ in 0..consume {
            scanner.consume();
        }
        assert_eq!(scanner.lex_string(), output);
    }
}

#[test]
fn test_lex_langle() {
    let cases = vec![
        ("<=", Token::new(1, 1, TokenType::LE)),
        ("<=100", Token::new(1, 1, TokenType::LE)),
        ("<1", Token::new(1, 1, TokenType::LAngle)),
        ("<", Token::new(1, 1, TokenType::LAngle)),
    ];
    for (input, output) in cases {
        let mut scanner = TokenScanner::new(input);
        scanner.consume();
        assert_eq!(scanner.lex_langle(), output);
    }
}

#[test]
fn test_lex_rangle() {
    let cases = vec![
        (">=", Token::new(1, 1, TokenType::GE)),
        (">=100", Token::new(1, 1, TokenType::GE)),
        (">1", Token::new(1, 1, TokenType::RAngle)),
        (">", Token::new(1, 1, TokenType::RAngle)),
    ];
    for (input, output) in cases {
        let mut scanner = TokenScanner::new(input);
        scanner.consume();
        assert_eq!(scanner.lex_rangle(), output);
    }
}

#[test]
fn test_lex_exclamation() {
    let cases = vec![
        ("!=true", Token::new(1, 1, TokenType::NE)),
        ("!=", Token::new(1, 1, TokenType::NE)),
        ("!", Token::new(1, 1, TokenType::Exclamation)),
        ("!false", Token::new(1, 1, TokenType::Exclamation)),
    ];
    for (input, output) in cases {
        let mut scanner = TokenScanner::new(input);
        scanner.consume();
        assert_eq!(scanner.lex_exclamation(), output);
    }
}

#[test]
fn test_lex_equal() {
    let cases = vec![
        ("false==true", 6, Token::new(1, 6, TokenType::EQ)),
        ("head==", 5, Token::new(1, 5, TokenType::EQ)),
        ("x =", 3, Token::new(1, 3, TokenType::Assign)),
        ("x : int = 5", 9, Token::new(1, 9, TokenType::Assign)),
    ];
    for (input, count, output) in cases {
        let mut scanner = TokenScanner::new(input);
        for _ in 0..count {
            scanner.consume();
        }
        assert_eq!(scanner.lex_equal(), output);
    }
}

#[test]
fn test_lex_integer() {
    let cases = vec![
        ("10101+", Token::new(1, 1, TokenType::Integer(10101))),
        ("123", Token::new(1, 1, TokenType::Integer(123))),
        (
            "2147483648",
            Token::new(1, 1, TokenType::Integer(2147483648)),
        ),
        (
            "18446744073709551616",
            Token::new(
                1,
                1,
                TokenType::Error(
                    "Trouble Parsing int: number too large to fit in target type".to_string(),
                ),
            ),
        ),
    ];
    for (input, output) in cases {
        let mut scanner = TokenScanner::new(input);
        scanner.consume();
        assert_eq!(scanner.lex_integer(), output);
    }
}

#[test]
fn test_lex_keyword_or_identifier() {
    let cases = vec![
        ("x : int", 5, Token::new(1, 5, TokenType::Int)),
        ("on : bool", 6, Token::new(1, 6, TokenType::Bool)),
        ("while true {}", 1, Token::new(1, 1, TokenType::While)),
        ("use io", 1, Token::new(1, 1, TokenType::Use)),
        ("return ball", 1, Token::new(1, 1, TokenType::Return)),
        (
            "if length(arr) == 1",
            4,
            Token::new(1, 4, TokenType::Length),
        ),
        ("on = true", 6, Token::new(1, 6, TokenType::True)),
        ("on = false", 6, Token::new(1, 6, TokenType::False)),
        ("if true{\n}", 1, Token::new(1, 1, TokenType::If)),
        ("if false{\n}\nelse", 13, Token::new(3, 1, TokenType::Else)),
        (
            "intboolwhileusereturnlengthtruefalseifelse",
            1,
            Token::new(
                1,
                1,
                TokenType::Identifier("intboolwhileusereturnlengthtruefalseifelse".to_string()),
            ),
        ),
        (
            "x : int = 5",
            1,
            Token::new(1, 1, TokenType::Identifier("x".to_string())),
        ),
    ];
    for (input, consume, output) in cases {
        let mut scanner = TokenScanner::new(input);
        for _ in 0..consume {
            scanner.consume();
        }
        assert_eq!(scanner.lex_key_or_identifier(), output);
    }
}

#[test]
fn test_next_token() {
    let mut scanner: TokenScanner = TokenScanner::new(&INPUT_TEXT);
    let str_output = "1:1 id i\n\
        1:3 :\n\
        1:5 int\n\
        1:9 =\n\
        1:11 integer 0\n\
        2:1 id z\n\
        2:2 :\n\
        2:3 int\n\
        2:6 =\n\
        2:7 integer 1\n\
        2:8 +\n\
        2:9 integer 2\n\
        2:10 +\n\
        2:11 integer 3\n\
        3:1 id s\n\
        3:2 :\n\
        3:4 int\n\
        3:7 [\n\
        3:8 ]\n\
        3:10 =\n\
        3:12 string Hello\n\
        4:1 id b\n\
        4:2 :\n\
        4:3 bool\n\
        4:7 ,\n\
        4:9 id i\n\
        4:10 :\n\
        4:11 int\n\
        4:15 =\n\
        4:17 id f\n\
        4:18 (\n\
        4:19 id x\n\
        4:20 )\
    ";
    let mut tokens = vec![];
    while let Some(t) = scanner.next_token() {
        tokens.push(t);
    }
    assert_eq!(
        tokens
            .into_iter()
            .map(|t| t.to_string())
            .collect::<Vec<String>>()
            .join("\n"),
        str_output
    )
}

#[test]
fn rigorous_next_token() {
    let input = "(){}[],.;:+-%&|_**>>!!=<<=>>====/\t//Comment\n\
    \"Hello Worl\\x{64}\"\'c\'12345int chicken_nugget\n\
    int bool true false while return length use if else\
    \n     ~`?^$#@";
    let mut outputs = VecDeque::new();
    outputs.push_back(Token::new(1, 1, TokenType::LParen));
    outputs.push_back(Token::new(1, 2, TokenType::RParen));
    outputs.push_back(Token::new(1, 3, TokenType::LBrace));
    outputs.push_back(Token::new(1, 4, TokenType::RBrace));
    outputs.push_back(Token::new(1, 5, TokenType::LBracket));
    outputs.push_back(Token::new(1, 6, TokenType::RBracket));
    outputs.push_back(Token::new(1, 7, TokenType::Comma));
    outputs.push_back(Token::new(1, 8, TokenType::Period));
    outputs.push_back(Token::new(1, 9, TokenType::Semicolon));
    outputs.push_back(Token::new(1, 10, TokenType::Colon));
    outputs.push_back(Token::new(1, 11, TokenType::Plus));
    outputs.push_back(Token::new(1, 12, TokenType::Minus));
    outputs.push_back(Token::new(1, 13, TokenType::Mod));
    outputs.push_back(Token::new(1, 14, TokenType::And));
    outputs.push_back(Token::new(1, 15, TokenType::Or));
    outputs.push_back(Token::new(1, 16, TokenType::Underscore));
    outputs.push_back(Token::new(1, 17, TokenType::Times));
    outputs.push_back(Token::new(1, 18, TokenType::HighMultiplication));
    outputs.push_back(Token::new(1, 21, TokenType::Exclamation));
    outputs.push_back(Token::new(1, 22, TokenType::NE));
    outputs.push_back(Token::new(1, 24, TokenType::LAngle));
    outputs.push_back(Token::new(1, 25, TokenType::LE));
    outputs.push_back(Token::new(1, 27, TokenType::RAngle));
    outputs.push_back(Token::new(1, 28, TokenType::GE));
    outputs.push_back(Token::new(1, 30, TokenType::EQ));
    outputs.push_back(Token::new(1, 32, TokenType::Assign));
    outputs.push_back(Token::new(1, 33, TokenType::Divide));
    outputs.push_back(Token::new(
        2,
        1,
        TokenType::String("Hello World".to_string()),
    ));
    outputs.push_back(Token::new(2, 19, TokenType::Character('c')));
    outputs.push_back(Token::new(2, 22, TokenType::Integer(12345)));
    outputs.push_back(Token::new(2, 27, TokenType::Int));
    outputs.push_back(Token::new(
        2,
        31,
        TokenType::Identifier("chicken_nugget".to_string()),
    ));
    outputs.push_back(Token::new(3, 1, TokenType::Int));
    outputs.push_back(Token::new(3, 5, TokenType::Bool));
    outputs.push_back(Token::new(3, 10, TokenType::True));
    outputs.push_back(Token::new(3, 15, TokenType::False));
    outputs.push_back(Token::new(3, 21, TokenType::While));
    outputs.push_back(Token::new(3, 27, TokenType::Return));
    outputs.push_back(Token::new(3, 34, TokenType::Length));
    outputs.push_back(Token::new(3, 41, TokenType::Use));
    outputs.push_back(Token::new(3, 45, TokenType::If));
    outputs.push_back(Token::new(3, 48, TokenType::Else));
    for (i, c) in vec!['~', '`', '?', '^', '$', '#', '@']
        .into_iter()
        .enumerate()
    {
        outputs.push_back(Token::new(
            4,
            6 + i,
            TokenType::Error(format!("Unexpected character: {}", c)),
        ));
    }
    let mut scanner = TokenScanner::new(input);
    while let Some(t) = scanner.next_token() {
        assert_eq!(t, outputs.pop_front().expect("Nonempty"));
    }
    assert_eq!(scanner.next_token(), None);
}

