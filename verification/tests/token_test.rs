use rocklang::token::{number_display, token_name, TokenKind};

#[test]
fn it_assert_token_types_formatng() {
    let cases: Vec<(TokenKind, &str)> = vec![
        (TokenKind::Identifier("ident".to_string()), "<Identifier(ident)>"),
        (TokenKind::Numeric("10.0".to_string()), "<F64(10)>"),
        (TokenKind::String("string".to_string()), "<String(string)>"),
        (TokenKind::LeftParen, "<LeftParen>"),
        (TokenKind::NotEqual, "<NotEqual>"),
        (TokenKind::LeftParen, "<LeftParen>"),
        (TokenKind::RightParen, "<RightParen>"),
        (TokenKind::Slash, "<Slash>"),
        (TokenKind::Plus, "<Plus>"),
        (TokenKind::Minus, "<Minus>"),
        (TokenKind::Asterisk, "<Asterisk>"),
        (TokenKind::Equal, "<Equal>"),
        (TokenKind::LCurly, "<LCurly>"),
        (TokenKind::RCurly, "<RCurly>"),
        (TokenKind::If, "<If>"),
        (TokenKind::While, "<While>"),
        (TokenKind::True, "<True>"),
        (TokenKind::False, "<False>"),
        (TokenKind::DoubleEqual, "<DoubleEqual>"),
        (TokenKind::Percent, "<Percent>"),
        (TokenKind::Exclamation, "<Exclamation>"),
        (TokenKind::Break, "<Break>"),
        (TokenKind::Eof, "<Eof>"),
        (TokenKind::Comma, "<Comma>"),
        (TokenKind::Arrow, "<Arrow>"),
        (TokenKind::Less, "<Less>"),
        (TokenKind::LessOrEqual, "<LessOrEqual>"),
        (TokenKind::Greater, "<Greater>"),
        (TokenKind::GreaterOrEqual, "<GreaterOrEqual>"),
        (TokenKind::Or, "<Or>"),
        (TokenKind::And, "<And>"),
        (TokenKind::Else, "<Else>"),
        (TokenKind::Colon, "<Colon>"),
    ];
    for (token, results) in cases {
        let token_name = token.to_string();
        assert_eq!(token_name, results);
    }
}

#[test]
fn keyword_kinds_have_their_names() {
    assert_eq!("Load", token_name(&TokenKind::Load));
    assert_eq!("Extern", token_name(&TokenKind::Extern));
    assert_eq!("<Load>", TokenKind::Load.to_string());
    assert_eq!("<Extern>", TokenKind::Extern.to_string());
}

#[test]
fn numeric_kind_displays_its_text() {
    assert_eq!("<F64(2.5)>", TokenKind::Numeric("2.5".to_string()).to_string());
    assert_eq!("F64", token_name(&TokenKind::Numeric("1".to_string())));
}

#[test]
fn numbers_display_in_shortest_decimal_form() {
    assert_eq!("10", number_display("10.0"));
    assert_eq!("7.5", number_display("007.50"));
    assert_eq!("0", number_display("0.0"));
    assert_eq!("0", number_display("000"));
    assert_eq!("5", number_display("5."));
    assert_eq!("0.25", number_display("0.25"));
    assert_eq!("100", number_display("100"));
    assert_eq!("<F64(3.5)>", TokenKind::Numeric("03.500".to_string()).to_string());
}
