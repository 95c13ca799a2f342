use rocklang::token::TokenKind;
use rocklang::tokenizer::TokenizerError;
use rocklang::tokenizer::{Tokenize, Tokenizer};

fn numeric_value(kind: &TokenKind) -> f64 {
    match kind {
        TokenKind::Numeric(text) => text.parse::<f64>().unwrap(),
        other => panic!("not a numeric token: {:?}", other),
    }
}

#[test]
fn it_tokenizes_all_tokens() {
    let mut tokenizer = Tokenizer::new(String::from(
        "< > () + - * % \"test\" !  != || && = == => { } ,
        // comment
         / identifier identifier123 23123.321 123 <= >= :",
    ));
    let tokens = tokenizer.tokenize().unwrap();
    assert_eq!(TokenKind::Less, tokens[0].kind);
    assert_eq!(TokenKind::Greater, tokens[1].kind);
    assert_eq!(TokenKind::LeftParen, tokens[2].kind);
    assert_eq!(TokenKind::RightParen, tokens[3].kind);
    assert_eq!(TokenKind::Plus, tokens[4].kind);
    assert_eq!(TokenKind::Minus, tokens[5].kind);
    assert_eq!(TokenKind::Asterisk, tokens[6].kind);
    assert_eq!(TokenKind::Percent, tokens[7].kind);
    assert_eq!(TokenKind::String(String::from("test")), tokens[8].kind);
    assert_eq!(TokenKind::Exclamation, tokens[9].kind);
    assert_eq!(TokenKind::NotEqual, tokens[10].kind);
    assert_eq!(TokenKind::Or, tokens[11].kind);
    assert_eq!(TokenKind::And, tokens[12].kind);
    assert_eq!(TokenKind::Equal, tokens[13].kind);
    assert_eq!(TokenKind::DoubleEqual, tokens[14].kind);
    assert_eq!(TokenKind::Arrow, tokens[15].kind);
    assert_eq!(TokenKind::LCurly, tokens[16].kind);
    assert_eq!(TokenKind::RCurly, tokens[17].kind);
    assert_eq!(TokenKind::Comma, tokens[18].kind);
    assert_eq!(TokenKind::Slash, tokens[19].kind);
    assert_eq!(TokenKind::Identifier(String::from("identifier")), tokens[20].kind);
    assert_eq!(TokenKind::Identifier(String::from("identifier123")), tokens[21].kind);
    assert_eq!(23123.321, numeric_value(&tokens[22].kind));
    assert_eq!(123.0, numeric_value(&tokens[23].kind));
    assert_eq!(TokenKind::LessOrEqual, tokens[24].kind);
    assert_eq!(TokenKind::GreaterOrEqual, tokens[25].kind);
    assert_eq!(TokenKind::Colon, tokens[26].kind);
    assert_eq!(TokenKind::Eof, tokens[27].kind);
    assert_eq!(28, tokens.len());
}

#[test]
fn it_returns_error_for_unexpected_character() {
    let mut tokenizer = Tokenizer::new(String::from("~"));
    assert!(matches!(
        tokenizer.tokenize(),
        Err(TokenizerError { chr: '~', line: 1 }),
    ));
}

#[test]
fn tokenizer_error_display() {
    let error = TokenizerError { chr: 'a', line: 55 };
    assert_eq!("unexpected character 'a'", error.to_string());
}

#[test]
fn numeric_literals_keep_their_text() {
    let mut tokenizer = Tokenizer::new(String::from("23123.321 123 "));
    let tokens = tokenizer.tokenize().unwrap();
    assert_eq!(TokenKind::Numeric(String::from("23123.321")), tokens[0].kind);
    assert_eq!(TokenKind::Numeric(String::from("123")), tokens[1].kind);
    assert_eq!(TokenKind::Eof, tokens[2].kind);
}

#[test]
fn keywords_are_recognised() {
    let mut tokenizer =
        Tokenizer::new(String::from("if while true false break else load extern ifx\n"));
    let kinds: Vec<TokenKind> = tokenizer.tokenize().unwrap().into_iter().map(|t| t.kind).collect();
    assert_eq!(
        vec![
            TokenKind::If,
            TokenKind::While,
            TokenKind::True,
            TokenKind::False,
            TokenKind::Break,
            TokenKind::Else,
            TokenKind::Load,
            TokenKind::Extern,
            TokenKind::Identifier(String::from("ifx")),
            TokenKind::Eof,
        ],
        kinds
    );
}

#[test]
fn empty_source_gives_only_eof() {
    let mut tokenizer = Tokenizer::new(String::new());
    let tokens = tokenizer.tokenize().unwrap();
    assert_eq!(1, tokens.len());
    assert_eq!(TokenKind::Eof, tokens[0].kind);
}

#[test]
fn tokens_end_with_a_single_eof() {
    let mut tokenizer = Tokenizer::new(String::from("x = 1 // note\n"));
    let tokens = tokenizer.tokenize().unwrap();
    let last = tokens.len() - 1;
    assert_eq!(TokenKind::Eof, tokens[last].kind);
    assert!(tokens[..last].iter().all(|t| t.kind != TokenKind::Eof));
}

#[test]
fn spans_record_line_and_column() {
    let mut tokenizer = Tokenizer::new(String::from("a\n  bb\n"));
    let tokens = tokenizer.tokenize().unwrap();
    assert_eq!((1, 2), (tokens[0].span.line, tokens[0].span.column));
    assert_eq!((2, 4), (tokens[1].span.line, tokens[1].span.column));
    assert_eq!(TokenKind::Eof, tokens[2].kind);
    assert_eq!((3, 0), (tokens[2].span.line, tokens[2].span.column));
}

#[test]
fn error_reports_the_line_of_the_character() {
    let mut tokenizer = Tokenizer::new(String::from("x\n\ny ~\n"));
    assert_eq!(Err(TokenizerError { chr: '~', line: 3 }), tokenizer.tokenize());
}

#[test]
fn tokenizing_twice_gives_the_same_tokens() {
    let mut tokenizer = Tokenizer::new(String::from("f(1, \"s\") >= 2\n"));
    let first = tokenizer.tokenize().unwrap();
    let second = tokenizer.tokenize().unwrap();
    assert_eq!(first, second);
}

#[test]
fn source_ending_where_a_character_is_needed_does_not_tokenize() {
    for source in ["a <", "\"open", "x", "12", "a =", "// end"] {
        let mut tokenizer = Tokenizer::new(String::from(source));
        assert!(tokenizer.try_tokenize().is_none(), "{}", source);
    }
}

#[test]
fn source_ending_after_a_separator_tokenizes() {
    let mut tokenizer = Tokenizer::new(String::from("x \n"));
    let r = tokenizer.try_tokenize();
    assert!(matches!(r, Some(Ok(_))));
}

#[test]
fn equal_tokens_are_recorded_before_their_second_character() {
    let mut tokenizer = Tokenizer::new(String::from("a == b => c;"));
    let r = tokenizer.try_tokenize();
    assert_eq!(Some(Err(TokenizerError { chr: ';', line: 1 })), r);
    let mut tokenizer = Tokenizer::new(String::from("a == b => c "));
    let tokens = tokenizer.tokenize().unwrap();
    assert_eq!(TokenKind::DoubleEqual, tokens[1].kind);
    assert_eq!(4, tokens[1].span.column);
    assert_eq!(TokenKind::Arrow, tokens[3].kind);
}
