use monkey::lexer::{tokenize, Lexer};
use monkey::token::{Token, TokenType};

fn run_tests(tests: &[(TokenType, &str)], lexer: &mut Lexer) {
    for (i, (expected_type, expected_literal)) in tests.iter().enumerate() {
        let tok = lexer.next_token();
        assert_eq!(
            tok.kind, *expected_type,
            "tests[{}] - token type wrong. expected={:?}, got={:?}",
            i, expected_type, tok.kind
        );
        assert_eq!(
            tok.literal, *expected_literal,
            "tests[{}] - literal wrong. expected={}, got={}",
            i, expected_literal, tok.literal
        );
    }
}

fn pairs(tokens: &[Token]) -> Vec<(TokenType, String)> {
    let mut out = Vec::new();
    for token in tokens {
        out.push((token.kind, token.literal.clone()));
    }
    out
}

#[test]
fn test_next_token_with_identifiers() {
    let input = "=+(){},;";
    let mut lexer = Lexer::new(input);

    let tests = vec![
        (TokenType::Assign, "="),
        (TokenType::Plus, "+"),
        (TokenType::LParen, "("),
        (TokenType::RParen, ")"),
        (TokenType::LBrace, "{"),
        (TokenType::RBrace, "}"),
        (TokenType::Comma, ","),
        (TokenType::Semicolon, ";"),
        (TokenType::Eof, "\0"),
    ];

    run_tests(&tests, &mut lexer);
}

#[test]
fn test_next_token_with_actual_syntax() {
    let input = "let five = 5;
        let ten = 10;
           let add = fn(x, y) {
             x + y;
        };
           let result = add(five, ten);
           !-/*5;
           5 < 10 > 5;

           if (5 < 10) {
                return true;
           } else {
                return false;
           }

           10 == 10;
           10 != 9;
           ";

    let mut lexer = Lexer::new(input);
    let tests = vec![
        (TokenType::Let, "let"),
        (TokenType::Ident, "five"),
        (TokenType::Assign, "="),
        (TokenType::Int, "5"),
        (TokenType::Semicolon, ";"),
        (TokenType::Let, "let"),
        (TokenType::Ident, "ten"),
        (TokenType::Assign, "="),
        (TokenType::Int, "10"),
        (TokenType::Semicolon, ";"),
        (TokenType::Let, "let"),
        (TokenType::Ident, "add"),
        (TokenType::Assign, "="),
        (TokenType::Function, "fn"),
        (TokenType::LParen, "("),
        (TokenType::Ident, "x"),
        (TokenType::Comma, ","),
        (TokenType::Ident, "y"),
        (TokenType::RParen, ")"),
        (TokenType::LBrace, "{"),
        (TokenType::Ident, "x"),
        (TokenType::Plus, "+"),
        (TokenType::Ident, "y"),
        (TokenType::Semicolon, ";"),
        (TokenType::RBrace, "}"),
        (TokenType::Semicolon, ";"),
        (TokenType::Let, "let"),
        (TokenType::Ident, "result"),
        (TokenType::Assign, "="),
        (TokenType::Ident, "add"),
        (TokenType::LParen, "("),
        (TokenType::Ident, "five"),
        (TokenType::Comma, ","),
        (TokenType::Ident, "ten"),
        (TokenType::RParen, ")"),
        (TokenType::Semicolon, ";"),
        (TokenType::Bang, "!"),
        (TokenType::Minus, "-"),
        (TokenType::Slash, "/"),
        (TokenType::Asterisk, "*"),
        (TokenType::Int, "5"),
        (TokenType::Semicolon, ";"),
        (TokenType::Int, "5"),
        (TokenType::Lt, "<"),
        (TokenType::Int, "10"),
        (TokenType::Gt, ">"),
        (TokenType::Int, "5"),
        (TokenType::Semicolon, ";"),
        (TokenType::If, "if"),
        (TokenType::LParen, "("),
        (TokenType::Int, "5"),
        (TokenType::Lt, "<"),
        (TokenType::Int, "10"),
        (TokenType::RParen, ")"),
        (TokenType::LBrace, "{"),
        (TokenType::Return, "return"),
        (TokenType::True, "true"),
        (TokenType::Semicolon, ";"),
        (TokenType::RBrace, "}"),
        (TokenType::Else, "else"),
        (TokenType::LBrace, "{"),
        (TokenType::Return, "return"),
        (TokenType::False, "false"),
        (TokenType::Semicolon, ";"),
        (TokenType::RBrace, "}"),
        (TokenType::Int, "10"),
        (TokenType::Eq, "=="),
        (TokenType::Int, "10"),
        (TokenType::Semicolon, ";"),
        (TokenType::Int, "10"),
        (TokenType::NotEq, "!="),
        (TokenType::Int, "9"),
        (TokenType::Semicolon, ";"),
        (TokenType::Eof, "\0"),
    ];
    run_tests(&tests, &mut lexer);
}

#[test]
fn single_character_tokens_are_followed_by_end_of_input() {
    let cases = vec![
        ("=", TokenType::Assign),
        ("+", TokenType::Plus),
        ("(", TokenType::LParen),
        (")", TokenType::RParen),
        ("{", TokenType::LBrace),
        ("}", TokenType::RBrace),
        (",", TokenType::Comma),
        (";", TokenType::Semicolon),
    ];
    for (input, kind) in cases {
        let mut lexer = Lexer::new(input);
        run_tests(&[(kind, input), (TokenType::Eof, "\0")], &mut lexer);
    }
}

#[test]
fn remaining_operators_are_single_tokens() {
    let mut lexer = Lexer::new("-*/<>!");
    let tests = vec![
        (TokenType::Minus, "-"),
        (TokenType::Asterisk, "*"),
        (TokenType::Slash, "/"),
        (TokenType::Lt, "<"),
        (TokenType::Gt, ">"),
        (TokenType::Bang, "!"),
        (TokenType::Eof, "\0"),
    ];
    run_tests(&tests, &mut lexer);
}

#[test]
fn double_equals_is_one_token() {
    let mut lexer = Lexer::new("==");
    run_tests(&[(TokenType::Eq, "=="), (TokenType::Eof, "\0")], &mut lexer);
}

#[test]
fn bang_equals_is_one_token() {
    let mut lexer = Lexer::new("!=");
    run_tests(&[(TokenType::NotEq, "!="), (TokenType::Eof, "\0")], &mut lexer);
}

#[test]
fn lookahead_pairs_greedily_from_the_left() {
    let mut lexer = Lexer::new("===");
    run_tests(
        &[(TokenType::Eq, "=="), (TokenType::Assign, "="), (TokenType::Eof, "\0")],
        &mut lexer,
    );
    let mut lexer = Lexer::new("!==");
    run_tests(
        &[(TokenType::NotEq, "!="), (TokenType::Assign, "="), (TokenType::Eof, "\0")],
        &mut lexer,
    );
    let mut lexer = Lexer::new("= =");
    run_tests(
        &[(TokenType::Assign, "="), (TokenType::Assign, "="), (TokenType::Eof, "\0")],
        &mut lexer,
    );
}

#[test]
fn lookahead_at_the_end_of_the_text_finds_nothing() {
    let mut lexer = Lexer::new("=");
    run_tests(&[(TokenType::Assign, "="), (TokenType::Eof, "\0")], &mut lexer);
    let mut lexer = Lexer::new("!");
    run_tests(&[(TokenType::Bang, "!"), (TokenType::Eof, "\0")], &mut lexer);
    let mut lexer = Lexer::new("a!");
    run_tests(
        &[(TokenType::Ident, "a"), (TokenType::Bang, "!"), (TokenType::Eof, "\0")],
        &mut lexer,
    );
}

#[test]
fn let_five_is_five_tokens() {
    let mut lexer = Lexer::new("let five = 5;");
    let tests = vec![
        (TokenType::Let, "let"),
        (TokenType::Ident, "five"),
        (TokenType::Assign, "="),
        (TokenType::Int, "5"),
        (TokenType::Semicolon, ";"),
        (TokenType::Eof, "\0"),
    ];
    run_tests(&tests, &mut lexer);
}

#[test]
fn keyword_matching_is_exact() {
    let mut lexer = Lexer::new("fn");
    run_tests(&[(TokenType::Function, "fn"), (TokenType::Eof, "\0")], &mut lexer);
    let mut lexer = Lexer::new("function");
    run_tests(&[(TokenType::Ident, "function"), (TokenType::Eof, "\0")], &mut lexer);
    let mut lexer = Lexer::new("Let lets le returns IF");
    let tests = vec![
        (TokenType::Ident, "Let"),
        (TokenType::Ident, "lets"),
        (TokenType::Ident, "le"),
        (TokenType::Ident, "returns"),
        (TokenType::Ident, "IF"),
        (TokenType::Eof, "\0"),
    ];
    run_tests(&tests, &mut lexer);
}

#[test]
fn end_of_input_is_returned_forever() {
    let mut lexer = Lexer::new("x");
    run_tests(&[(TokenType::Ident, "x")], &mut lexer);
    for _ in 0..1000 {
        let tok = lexer.next_token();
        assert_eq!(tok.kind, TokenType::Eof);
        assert_eq!(tok.literal, "\0");
    }
}

#[test]
fn empty_text_is_end_of_input() {
    let mut lexer = Lexer::new("");
    run_tests(&[(TokenType::Eof, "\0"), (TokenType::Eof, "\0")], &mut lexer);
}

#[test]
fn whitespace_alone_is_end_of_input() {
    let mut lexer = Lexer::new(" \t\n\r  ");
    run_tests(&[(TokenType::Eof, "\0"), (TokenType::Eof, "\0")], &mut lexer);
}

#[test]
fn runs_end_at_whitespace_punctuation_and_end_of_text() {
    let mut lexer = Lexer::new("abc 123;_x_Y9 42");
    let tests = vec![
        (TokenType::Ident, "abc"),
        (TokenType::Int, "123"),
        (TokenType::Semicolon, ";"),
        (TokenType::Ident, "_x_Y"),
        (TokenType::Int, "9"),
        (TokenType::Int, "42"),
        (TokenType::Eof, "\0"),
    ];
    run_tests(&tests, &mut lexer);
    let mut lexer = Lexer::new("foo");
    run_tests(&[(TokenType::Ident, "foo"), (TokenType::Eof, "\0")], &mut lexer);
    let mut lexer = Lexer::new("007");
    run_tests(&[(TokenType::Int, "007"), (TokenType::Eof, "\0")], &mut lexer);
}

#[test]
fn integer_literals_are_kept_as_text() {
    let digits = "123456789012345678901234567890123456789012345678901234567890";
    let mut lexer = Lexer::new(digits);
    run_tests(&[(TokenType::Int, digits), (TokenType::Eof, "\0")], &mut lexer);
}

#[test]
fn unrecognized_characters_do_not_stop_the_scan() {
    let mut lexer = Lexer::new("a @ b # $c");
    let tests = vec![
        (TokenType::Ident, "a"),
        (TokenType::Illegal, "@"),
        (TokenType::Ident, "b"),
        (TokenType::Illegal, "#"),
        (TokenType::Illegal, "$"),
        (TokenType::Ident, "c"),
        (TokenType::Eof, "\0"),
    ];
    run_tests(&tests, &mut lexer);
}

#[test]
fn text_outside_ascii_is_tokenized_by_character() {
    let mut lexer = Lexer::new("let ñu = é42; 日本 x");
    let tests = vec![
        (TokenType::Let, "let"),
        (TokenType::Illegal, "ñ"),
        (TokenType::Ident, "u"),
        (TokenType::Assign, "="),
        (TokenType::Illegal, "é"),
        (TokenType::Int, "42"),
        (TokenType::Semicolon, ";"),
        (TokenType::Illegal, "日"),
        (TokenType::Illegal, "本"),
        (TokenType::Ident, "x"),
        (TokenType::Eof, "\0"),
    ];
    run_tests(&tests, &mut lexer);
}

#[test]
fn a_nul_character_reads_as_end_of_input_and_is_passed() {
    let mut lexer = Lexer::new("a\0b");
    let tests = vec![
        (TokenType::Ident, "a"),
        (TokenType::Eof, "\0"),
        (TokenType::Ident, "b"),
        (TokenType::Eof, "\0"),
        (TokenType::Eof, "\0"),
    ];
    run_tests(&tests, &mut lexer);
}

#[test]
fn read_char_moves_one_character_and_stops_at_the_end() {
    let mut lexer = Lexer::new("ab+");
    lexer.read_char();
    run_tests(&[(TokenType::Ident, "b")], &mut lexer);
    lexer.read_char();
    lexer.read_char();
    lexer.read_char();
    run_tests(&[(TokenType::Eof, "\0")], &mut lexer);
}

#[test]
fn tokenize_leaves_out_end_of_input() {
    let tokens = tokenize("let a = b1;");
    assert_eq!(
        pairs(&tokens),
        vec![
            (TokenType::Let, "let".to_string()),
            (TokenType::Ident, "a".to_string()),
            (TokenType::Assign, "=".to_string()),
            (TokenType::Ident, "b".to_string()),
            (TokenType::Int, "1".to_string()),
            (TokenType::Semicolon, ";".to_string()),
        ]
    );
    assert!(tokenize("").is_empty());
    assert!(tokenize("   ").is_empty());
}

#[test]
fn tokenize_stops_at_the_first_end_of_input_token() {
    let tokens = tokenize("x \0 y");
    assert_eq!(pairs(&tokens), vec![(TokenType::Ident, "x".to_string())]);
}

#[test]
fn tokens_print_like_their_fields() {
    let tokens = tokenize("let");
    assert_eq!(format!("{:?}", tokens[0]), "Token { kind: Let, literal: \"let\" }");
}

#[test]
fn a_long_text_is_tokenized_to_the_end() {
    let mut text = String::new();
    for i in 0..20000 {
        text.push_str("let value_");
        text.push_str(if i % 2 == 0 { "even" } else { "odd" });
        text.push_str(" = 12345;\n");
    }
    let tokens = tokenize(&text);
    assert_eq!(tokens.len(), 100000);
    assert_eq!(tokens[99995].kind, TokenType::Let);
    assert_eq!(tokens[99996].literal, "value_odd");
    assert_eq!(tokens[99998].literal, "12345");
    assert_eq!(tokens[99999].kind, TokenType::Semicolon);
}

#[test]
fn is_exhausted_tells_the_end_of_the_text_from_a_nul() {
    let mut lexer = Lexer::new("\0a ");
    assert!(!lexer.is_exhausted());
    run_tests(&[(TokenType::Eof, "\0")], &mut lexer);
    assert!(!lexer.is_exhausted());
    run_tests(&[(TokenType::Ident, "a")], &mut lexer);
    assert!(!lexer.is_exhausted());
    run_tests(&[(TokenType::Eof, "\0")], &mut lexer);
    assert!(lexer.is_exhausted());
    run_tests(&[(TokenType::Eof, "\0")], &mut lexer);
    assert!(lexer.is_exhausted());
    assert!(Lexer::new("").is_exhausted());
}
