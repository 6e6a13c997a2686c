use monkey::token::{lookup_ident, Token, TokenType};

fn all_kinds() -> Vec<TokenType> {
    vec![
        TokenType::Illegal,
        TokenType::Eof,
        TokenType::Ident,
        TokenType::Int,
        TokenType::Assign,
        TokenType::Plus,
        TokenType::Minus,
        TokenType::Bang,
        TokenType::Asterisk,
        TokenType::Slash,
        TokenType::Lt,
        TokenType::Gt,
        TokenType::Comma,
        TokenType::Semicolon,
        TokenType::LParen,
        TokenType::RParen,
        TokenType::LBrace,
        TokenType::RBrace,
        TokenType::Function,
        TokenType::Let,
        TokenType::True,
        TokenType::False,
        TokenType::If,
        TokenType::Else,
        TokenType::Return,
        TokenType::Eq,
        TokenType::NotEq,
    ]
}

#[test]
fn reserved_words_are_looked_up() {
    assert_eq!(lookup_ident("fn"), TokenType::Function);
    assert_eq!(lookup_ident("let"), TokenType::Let);
    assert_eq!(lookup_ident("true"), TokenType::True);
    assert_eq!(lookup_ident("false"), TokenType::False);
    assert_eq!(lookup_ident("if"), TokenType::If);
    assert_eq!(lookup_ident("else"), TokenType::Else);
    assert_eq!(lookup_ident("return"), TokenType::Return);
}

#[test]
fn other_lexemes_are_identifiers() {
    let words = [
        "", "f", "fnn", "function", "Fn", "LET", "lett", "tru", "truee", "iff", "els", "retur",
        "return_", "foobar", "x",
    ];
    for word in words {
        assert_eq!(lookup_ident(word), TokenType::Ident, "{}", word);
    }
}

#[test]
fn lookup_compares_characters_not_bytes() {
    assert_eq!(lookup_ident("f\u{f1}"), TokenType::Ident);
    assert_eq!(lookup_ident("l\u{e9}t"), TokenType::Ident);
}

#[test]
fn new_keeps_kind_and_literal() {
    let token = Token::new(TokenType::Int, "42".to_string());
    assert_eq!(token.kind, TokenType::Int);
    assert_eq!(token.literal, "42");
}

#[test]
fn clone_copies_both_fields() {
    let token = Token::new(TokenType::Ident, "foobar".to_string());
    let copy = token.clone();
    assert_eq!(copy.kind, token.kind);
    assert_eq!(copy.literal, token.literal);
}

#[test]
fn names_are_the_variant_names() {
    let kinds = all_kinds();
    assert_eq!(kinds.len(), 27);
    for kind in kinds {
        assert_eq!(kind.name(), format!("{:?}", kind));
    }
    assert_eq!(TokenType::NotEq.name(), "NotEq");
    assert_eq!(TokenType::LParen.name(), "LParen");
}
