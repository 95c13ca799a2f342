use rocklang::expression::{Assignment, Binary, Expression, Extern, Grouping, Node, Operator};
use rocklang::parser::{Parse, Parser, ParserError, Span, Type};
use rocklang::token::{Token, TokenKind};
use rocklang::tokenizer::{Tokenize, Tokenizer};

fn token(kind: TokenKind) -> Token {
    Token {
        kind,
        span: Span::default(),
    }
}

fn parser_of(kinds: Vec<TokenKind>) -> Parser {
    let tokens: Vec<Token> = kinds.into_iter().map(token).collect();
    Parser::new(&tokens)
}

fn node(expression: Expression) -> Node {
    Node {
        expression,
        span: Span::default(),
    }
}

fn ident(name: &str) -> Node {
    node(Expression::Identifier(name.to_string()))
}

fn num(text: &str) -> Node {
    node(Expression::Numeric(text.to_string()))
}

fn id(name: &str) -> TokenKind {
    TokenKind::Identifier(name.to_string())
}

fn parse_source(source: &str) -> Result<Vec<Node>, ParserError> {
    let mut tokenizer = Tokenizer::new(source.to_string());
    let tokens = tokenizer.tokenize().unwrap();
    let mut parser = Parser::new(&tokens);
    parser.parse().map(|p| p.body)
}

#[test]
fn extern_declaration_takes_its_last_type_as_return_type() {
    let mut parser = parser_of(vec![
        TokenKind::Extern,
        TokenKind::Less,
        id("number"),
        TokenKind::Comma,
        id("string"),
        TokenKind::Comma,
        id("number"),
        TokenKind::Greater,
        TokenKind::LeftParen,
        TokenKind::String("sum".to_string()),
        TokenKind::RightParen,
        TokenKind::Eof,
    ]);
    let body = parser.parse().unwrap().body;
    let expected = node(Expression::Extern(Extern {
        types: vec![Type::Numeric, Type::String],
        return_type: Type::Numeric,
        name: "sum".to_string(),
    }));
    assert_eq!(vec![expected], body);
}

#[test]
fn extern_declaration_without_types_is_an_error_at_its_closing_parenthesis() {
    let mut parser = parser_of(vec![
        TokenKind::Extern,
        TokenKind::Less,
        TokenKind::Greater,
        TokenKind::LeftParen,
        TokenKind::String("f".to_string()),
        TokenKind::RightParen,
        TokenKind::Eof,
    ]);
    match parser.parse() {
        Err(ParserError::SyntaxError { token }) => assert_eq!(TokenKind::RightParen, token.kind),
        Ok(_) => panic!("should return an error"),
    }
}

#[test]
fn extern_declaration_with_unknown_type_is_an_error_at_the_type() {
    let mut parser = parser_of(vec![
        TokenKind::Extern,
        TokenKind::Less,
        id("nothing"),
        TokenKind::Greater,
        TokenKind::Eof,
    ]);
    match parser.parse() {
        Err(ParserError::SyntaxError { token }) => assert_eq!(id("nothing"), token.kind),
        Ok(_) => panic!("should return an error"),
    }
}

#[test]
fn assignments_group_to_the_left() {
    let body = parser_of(vec![
        id("a"),
        TokenKind::Equal,
        id("b"),
        TokenKind::Equal,
        id("c"),
        TokenKind::Eof,
    ])
    .parse()
    .unwrap()
    .body;
    let inner = node(Expression::Assignment(Assignment {
        left: Box::new(ident("a")),
        right: Box::new(ident("b")),
    }));
    let expected = node(Expression::Assignment(Assignment {
        left: Box::new(inner),
        right: Box::new(ident("c")),
    }));
    assert_eq!(vec![expected], body);
}

#[test]
fn multiplication_binds_tighter_than_addition() {
    let body = parser_of(vec![
        TokenKind::Numeric("1".to_string()),
        TokenKind::Plus,
        TokenKind::Numeric("2".to_string()),
        TokenKind::Asterisk,
        TokenKind::Numeric("3".to_string()),
        TokenKind::Eof,
    ])
    .parse()
    .unwrap()
    .body;
    let product = node(Expression::Binary(Binary {
        left: Box::new(num("2")),
        operator: Operator::Asterisk,
        right: Box::new(num("3")),
    }));
    let expected = node(Expression::Binary(Binary {
        left: Box::new(num("1")),
        operator: Operator::Plus,
        right: Box::new(product),
    }));
    assert_eq!(vec![expected], body);
}

#[test]
fn parsing_again_after_success_gives_an_empty_program() {
    let mut parser = parser_of(vec![id("x"), TokenKind::Eof]);
    assert_eq!(1, parser.parse().unwrap().body.len());
    assert_eq!(0, parser.parse().unwrap().body.len());
}

#[test]
fn tokens_ending_before_eof_do_not_parse() {
    let mut parser = parser_of(vec![id("x")]);
    assert!(parser.try_parse().is_none());
    let mut parser = parser_of(vec![]);
    assert!(parser.try_parse().is_none());
}

#[test]
fn parenthesis_before_eof_does_not_parse() {
    let mut parser = parser_of(vec![TokenKind::LeftParen, TokenKind::Eof]);
    assert!(parser.try_parse().is_none());
}

#[test]
fn empty_program_parses() {
    let mut parser = parser_of(vec![TokenKind::Eof]);
    assert!(matches!(parser.try_parse(), Some(Ok(p)) if p.body.is_empty()));
}

#[test]
fn node_spans_are_those_of_the_last_token_read() {
    let body = parse_source("x = 1 + 22\n").unwrap();
    assert_eq!(1, body.len());
    assert_eq!(Span { line: 1, column: 11 }, body[0].span);
    match &body[0].expression {
        Expression::Assignment(a) => {
            assert_eq!(Span { line: 1, column: 2 }, a.left.span);
            assert_eq!(Span { line: 1, column: 11 }, a.right.span);
        }
        other => panic!("not an assignment: {:?}", other),
    }
}

#[test]
fn syntax_error_displays_kind_and_position() {
    let error = parse_source("x = )\n").unwrap_err();
    assert_eq!("Syntax error: unexpected token <RightParen> at 1:6", error.to_string());
}

#[test]
fn readme_sieve_program_parses() {
    let source = "mem_set = (vec: vec, val: number, n: number): vec => {
	i = 0
	while i < n {
		vec_set(vec, i, val)
		i = i + 1
	}
	vec
}

sieve = (n: number): void => {
	v = vecnew()
	prime = mem_set(v, 1, n + 1)

	p = 2

	while p * p <= n {
		if vec_get(prime, p) == 1 {
			i = p * p
			while i <= n {
				vec_set(prime, i, 0)
				i = i + p
			}
		}

		p = p + 1
	}

	p = 2

	while p <= n {
		if vec_get(prime, p) == 1 {
			print(string(p))
			print(\"\\n\")
		}

		p = p + 1
	}
}

sieve(10)
";
    let body = parse_source(source).unwrap();
    assert_eq!(3, body.len());
    assert!(matches!(body[2].expression, Expression::FuncCall(_)));
    match &body[0].expression {
        Expression::Assignment(a) => match &a.right.expression {
            Expression::FuncDecl(f) => {
                assert_eq!(3, f.params.len());
                assert_eq!(Type::Vector, f.return_type);
                assert_eq!(3, f.body.len());
            }
            other => panic!("not a declaration: {:?}", other),
        },
        other => panic!("not an assignment: {:?}", other),
    }
}

#[test]
fn parenthesis_not_opening_parameters_parses_as_grouping() {
    let mut parser = parser_of(vec![
        TokenKind::LeftParen,
        TokenKind::Numeric("10.0".to_string()),
        TokenKind::Plus,
        TokenKind::Numeric("2.0".to_string()),
        TokenKind::RightParen,
        TokenKind::Eof,
    ]);
    let body = parser.parse().unwrap().body;
    let sum = node(Expression::Binary(Binary {
        left: Box::new(num("10.0")),
        operator: Operator::Plus,
        right: Box::new(num("2.0")),
    }));
    assert_eq!(vec![node(Expression::Grouping(Grouping(Box::new(sum))))], body);
}

#[test]
fn parenthesized_name_without_colon_parses_as_grouping() {
    let mut parser = parser_of(vec![TokenKind::LeftParen, id("x"), TokenKind::RightParen, TokenKind::Eof]);
    let body = parser.parse().unwrap().body;
    assert_eq!(vec![node(Expression::Grouping(Grouping(Box::new(ident("x")))))], body);
}
