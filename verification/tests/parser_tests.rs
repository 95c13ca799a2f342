use rocklang::expression::{
    Assignment, Binary, Conditional, Expression, FuncCall, FuncDecl, Grouping, Node, Operator,
    Unary, While,
};
use rocklang::parser::{Param, Parse, Parser, ParserError, Span, Type};
use rocklang::token::{Token, TokenKind};

fn token(kind: TokenKind) -> Token {
    Token {
        kind,
        span: Span::default(),
    }
}

fn tokens(kinds: Vec<TokenKind>) -> Vec<Token> {
    kinds.into_iter().map(token).collect()
}

fn node(expression: Expression) -> Node {
    Node {
        expression,
        span: Span::default(),
    }
}

fn num(text: &str) -> Node {
    node(Expression::Numeric(text.to_string()))
}

fn ident(name: &str) -> Node {
    node(Expression::Identifier(name.to_string()))
}

fn string(text: &str) -> Node {
    node(Expression::String(text.to_string()))
}

fn binary(left: Node, operator: Operator, right: Node) -> Node {
    node(Expression::Binary(Binary {
        left: Box::new(left),
        operator,
        right: Box::new(right),
    }))
}

fn call(callee: &str, args: Vec<Node>) -> Node {
    node(Expression::FuncCall(FuncCall {
        calee: Box::new(ident(callee)),
        args,
    }))
}

fn id(name: &str) -> TokenKind {
    TokenKind::Identifier(name.to_string())
}

fn text(value: &str) -> TokenKind {
    TokenKind::String(value.to_string())
}

fn number(value: &str) -> TokenKind {
    TokenKind::Numeric(value.to_string())
}

fn parse(kinds: Vec<TokenKind>) -> Result<Vec<Node>, ParserError> {
    let mut parser = Parser::new(&tokens(kinds));
    parser.parse().map(|program| program.body)
}

fn error_kind(kinds: Vec<TokenKind>) -> TokenKind {
    match parse(kinds) {
        Ok(_) => panic!("should return an error"),
        Err(ParserError::SyntaxError { token }) => token.kind,
    }
}

fn print_hello_body() -> Vec<TokenKind> {
    vec![
        TokenKind::LCurly,
        id("print"),
        TokenKind::LeftParen,
        text("hello"),
        TokenKind::RightParen,
        TokenKind::RCurly,
        TokenKind::Eof,
    ]
}

fn func_decl(params: Vec<Param>, return_type: Type) -> Node {
    node(Expression::FuncDecl(FuncDecl {
        params,
        body: vec![call("print", vec![string("hello")])],
        return_type,
    }))
}

fn param(name: &str, typ: Type) -> Param {
    Param {
        typ,
        name: name.to_string(),
    }
}

#[test]
fn it_parses_addition() {
    let ast = parse(vec![number("5.2"), TokenKind::Plus, number("10.0"), TokenKind::Eof]).unwrap();
    assert_eq!(vec![binary(num("5.2"), Operator::Plus, num("10.0"))], ast);
}

#[test]
fn it_parses_parentheses() {
    let ast = parse(vec![
        TokenKind::LeftParen,
        number("10.0"),
        TokenKind::Plus,
        number("2.0"),
        TokenKind::RightParen,
        TokenKind::Slash,
        number("3.0"),
        TokenKind::Eof,
    ])
    .unwrap();
    let grouping = node(Expression::Grouping(Grouping(Box::new(binary(
        num("10.0"),
        Operator::Plus,
        num("2.0"),
    )))));
    assert_eq!(vec![binary(grouping, Operator::Slash, num("3.0"))], ast);
}

#[test]
fn it_parses_while_loop() {
    let mut kinds = vec![TokenKind::While, id("x"), TokenKind::Less, number("10.0")];
    kinds.extend(print_hello_body());
    let ast = parse(kinds).unwrap();
    let expected = node(Expression::While(While {
        predicate: Box::new(binary(ident("x"), Operator::Less, num("10.0"))),
        body: vec![call("print", vec![string("hello")])],
    }));
    assert_eq!(vec![expected], ast);
}

#[test]
fn it_returns_error_when_no_curly_after_while_predicate_in_while() {
    let kind = error_kind(vec![
        TokenKind::While,
        id("x"),
        TokenKind::Less,
        number("10.0"),
        text("hello"),
    ]);
    assert!(matches!(kind, TokenKind::String(_)));
}

#[test]
fn it_parses_conditionals() {
    let mut kinds = vec![TokenKind::If, id("x"), TokenKind::Less, number("10.0")];
    kinds.extend(print_hello_body());
    let ast = parse(kinds).unwrap();
    let expected = node(Expression::Conditional(Conditional {
        predicate: Box::new(binary(ident("x"), Operator::Less, num("10.0"))),
        body: vec![call("print", vec![string("hello")])],
        else_body: vec![],
    }));
    assert_eq!(vec![expected], ast);
}

#[test]
fn it_parses_conditionals_with_else() {
    let ast = parse(vec![
        TokenKind::If,
        id("x"),
        TokenKind::Less,
        number("10.0"),
        TokenKind::LCurly,
        id("print"),
        TokenKind::LeftParen,
        text("hello"),
        TokenKind::RightParen,
        TokenKind::RCurly,
        TokenKind::Else,
        TokenKind::LCurly,
        id("print"),
        TokenKind::LeftParen,
        text("else"),
        TokenKind::RightParen,
        TokenKind::RCurly,
        TokenKind::Eof,
    ])
    .unwrap();
    let expected = node(Expression::Conditional(Conditional {
        predicate: Box::new(binary(ident("x"), Operator::Less, num("10.0"))),
        body: vec![call("print", vec![string("hello")])],
        else_body: vec![call("print", vec![string("else")])],
    }));
    assert_eq!(vec![expected], ast);
}

#[test]
fn it_returns_error_when_no_curly_after_while_predicate_in_if() {
    let kind = error_kind(vec![
        TokenKind::If,
        id("x"),
        TokenKind::Less,
        number("10.0"),
        TokenKind::LCurly,
        id("print"),
        TokenKind::LeftParen,
        text("hello"),
        TokenKind::RightParen,
        TokenKind::RCurly,
        TokenKind::Else,
        text("hello"),
    ]);
    assert!(matches!(kind, TokenKind::String(_)));
}

#[test]
fn it_returns_error_when_no_curly_after_while_predicate_in_else() {
    let kind = error_kind(vec![
        TokenKind::If,
        id("x"),
        TokenKind::Less,
        number("10.0"),
        text("hello"),
    ]);
    assert!(matches!(kind, TokenKind::String(_)));
}

#[test]
fn it_displays_correct_syntax_error() {
    let error = ParserError::SyntaxError {
        token: token(TokenKind::DoubleEqual),
    };
    assert_eq!(
        format!(
            "Syntax error: unexpected token {} at 0:0",
            TokenKind::DoubleEqual.to_string()
        ),
        error.to_string()
    );
}

#[test]
fn it_parses_assignments() {
    let ast = parse(vec![id("x"), TokenKind::Equal, number("10.0"), TokenKind::Eof]).unwrap();
    let expected = node(Expression::Assignment(Assignment {
        left: Box::new(ident("x")),
        right: Box::new(num("10.0")),
    }));
    assert_eq!(vec![expected], ast);
}

fn comparison_case(kind: TokenKind, operator: Operator) {
    let ast = parse(vec![id("x"), kind, number("10.0"), TokenKind::Eof]).unwrap();
    assert_eq!(vec![binary(ident("x"), operator, num("10.0"))], ast);
}

#[test]
fn it_parses_binary_equal() {
    comparison_case(TokenKind::DoubleEqual, Operator::Equal);
}

#[test]
fn it_parses_binary_not_equal() {
    comparison_case(TokenKind::NotEqual, Operator::NotEqual);
}

#[test]
fn it_parses_less_or_equal() {
    comparison_case(TokenKind::LessOrEqual, Operator::LessOrEqual);
}

#[test]
fn it_parses_less() {
    comparison_case(TokenKind::Less, Operator::Less);
}

#[test]
fn it_parses_greater() {
    comparison_case(TokenKind::Greater, Operator::Greater);
}

#[test]
fn it_parses_greater_or_equal() {
    comparison_case(TokenKind::GreaterOrEqual, Operator::GreaterOrEqual);
}

fn arithmetic_case(kind: TokenKind, operator: Operator) {
    let ast = parse(vec![number("10.0"), kind, id("x"), TokenKind::Eof]).unwrap();
    assert_eq!(vec![binary(num("10.0"), operator, ident("x"))], ast);
}

#[test]
fn it_parses_subtraction() {
    arithmetic_case(TokenKind::Minus, Operator::Minus);
}

#[test]
fn it_parses_modulo() {
    arithmetic_case(TokenKind::Percent, Operator::Mod);
}

#[test]
fn it_parses_multiplication() {
    arithmetic_case(TokenKind::Asterisk, Operator::Asterisk);
}

#[test]
fn it_parses_division() {
    arithmetic_case(TokenKind::Slash, Operator::Slash);
}

#[test]
fn it_parses_unary_minus() {
    let ast = parse(vec![TokenKind::Minus, number("10.0"), TokenKind::Eof]).unwrap();
    let expected = node(Expression::Unary(Unary {
        operator: Operator::Minus,
        right: Box::new(num("10.0")),
    }));
    assert_eq!(vec![expected], ast);
}

fn declaration(params: Vec<TokenKind>, tail: Vec<TokenKind>) -> Vec<TokenKind> {
    let mut kinds = vec![TokenKind::LeftParen];
    kinds.extend(params);
    kinds.push(TokenKind::RightParen);
    kinds.extend(tail);
    kinds
}

fn void_tail() -> Vec<TokenKind> {
    let mut tail = vec![TokenKind::Colon, id("void"), TokenKind::Arrow];
    tail.extend(print_hello_body());
    tail
}

#[test]
fn it_parses_func_declaration_with_no_params() {
    let ast = parse(declaration(vec![], void_tail())).unwrap();
    assert_eq!(vec![func_decl(vec![], Type::Void)], ast);
}

#[test]
fn it_parses_func_declaration_with_one_number_param() {
    let ast = parse(declaration(
        vec![id("a"), TokenKind::Colon, id("number")],
        void_tail(),
    ))
    .unwrap();
    assert_eq!(
        vec![func_decl(vec![param("a", Type::Numeric)], Type::Void)],
        ast
    );
}

#[test]
fn it_parses_func_declaration_with_one_vec_param() {
    let ast = parse(declaration(
        vec![id("a"), TokenKind::Colon, id("vec")],
        void_tail(),
    ))
    .unwrap();
    assert_eq!(
        vec![func_decl(vec![param("a", Type::Vector)], Type::Void)],
        ast
    );
}

#[test]
fn it_parses_func_declaration_with_one_fun_param() {
    let ast = parse(declaration(
        vec![id("a"), TokenKind::Colon, id("fun")],
        void_tail(),
    ))
    .unwrap();
    assert_eq!(
        vec![func_decl(vec![param("a", Type::Function)], Type::Void)],
        ast
    );
}

#[test]
fn it_parses_func_declaration_with_multiple_params() {
    let ast = parse(declaration(
        vec![
            id("a"),
            TokenKind::Colon,
            id("fun"),
            TokenKind::Comma,
            id("b"),
            TokenKind::Colon,
            id("number"),
        ],
        void_tail(),
    ))
    .unwrap();
    assert_eq!(
        vec![func_decl(
            vec![param("a", Type::Function), param("b", Type::Numeric)],
            Type::Void
        )],
        ast
    );
}

#[test]
fn it_returns_an_error_when_func_has_unknown_arg_type() {
    let kind = error_kind(declaration(
        vec![
            id("a"),
            TokenKind::Colon,
            id("fun"),
            TokenKind::Comma,
            id("b"),
            TokenKind::Colon,
            id("wrongtype"),
        ],
        void_tail(),
    ));
    assert!(matches!(kind, TokenKind::Identifier(_)));
}

#[test]
fn it_returns_an_error_when_func_has_non_type_expression_as_arg_type() {
    let kind = error_kind(declaration(
        vec![
            id("a"),
            TokenKind::Colon,
            id("fun"),
            TokenKind::Comma,
            id("b"),
            TokenKind::Colon,
            text("string"),
        ],
        void_tail(),
    ));
    assert!(matches!(kind, TokenKind::String(_)));
}

#[test]
fn it_returns_an_error_when_func_has_no_arg_type_after_arg_name() {
    let kind = error_kind(declaration(
        vec![id("a"), TokenKind::Colon, id("fun"), TokenKind::Comma, id("b")],
        void_tail(),
    ));
    assert!(matches!(kind, TokenKind::Colon));
}

#[test]
fn it_returns_an_error_when_func_has_no_return_type() {
    let mut tail = vec![TokenKind::Arrow];
    tail.extend(print_hello_body());
    let kind = error_kind(declaration(vec![id("a"), TokenKind::Colon, id("fun")], tail));
    assert!(matches!(kind, TokenKind::Arrow));
}

#[test]
fn it_returns_an_error_when_func_has_unknown_return_type() {
    let mut tail = vec![TokenKind::Colon, id("wrongtype"), TokenKind::Arrow];
    tail.extend(print_hello_body());
    let kind = error_kind(declaration(vec![id("a"), TokenKind::Colon, id("fun")], tail));
    assert!(matches!(kind, TokenKind::Identifier(_)));
}

#[test]
fn it_returns_an_error_when_func_has_non_type_expression_as_return_type() {
    let mut tail = vec![TokenKind::Colon, text("string"), TokenKind::Arrow];
    tail.extend(print_hello_body());
    let kind = error_kind(declaration(vec![id("a"), TokenKind::Colon, id("fun")], tail));
    assert!(matches!(kind, TokenKind::String(_)));
}

#[test]
fn it_returns_error_when_func_decl_has_no_arrow() {
    let mut tail = vec![TokenKind::Colon, id("void")];
    tail.extend(print_hello_body());
    let kind = error_kind(declaration(vec![id("a"), TokenKind::Colon, id("fun")], tail));
    assert!(matches!(kind, TokenKind::LCurly));
}

#[test]
fn it_returns_error_when_func_decl_has_no_body() {
    let tail = vec![
        TokenKind::Colon,
        id("void"),
        TokenKind::Arrow,
        text("hello"),
        TokenKind::Eof,
    ];
    let kind = error_kind(declaration(vec![id("a"), TokenKind::Colon, id("fun")], tail));
    assert!(matches!(kind, TokenKind::String(_)));
}

#[test]
fn it_parses_func_call() {
    let ast = parse(vec![
        id("print"),
        TokenKind::LeftParen,
        TokenKind::RightParen,
        TokenKind::Eof,
    ])
    .unwrap();
    assert_eq!(vec![call("print", vec![])], ast);
}

#[test]
fn it_parses_func_call_with_one_arg() {
    let ast = parse(vec![
        id("print"),
        TokenKind::LeftParen,
        text("hello"),
        TokenKind::RightParen,
        TokenKind::Eof,
    ])
    .unwrap();
    assert_eq!(vec![call("print", vec![string("hello")])], ast);
}

#[test]
fn it_parses_func_call_with_two_args() {
    let ast = parse(vec![
        id("print"),
        TokenKind::LeftParen,
        text("hello"),
        TokenKind::Comma,
        number("10.0"),
        TokenKind::RightParen,
        TokenKind::Eof,
    ])
    .unwrap();
    assert_eq!(vec![call("print", vec![string("hello"), num("10.0")])], ast);
}

#[test]
fn it_returns_error_for_call_syntax_on_non_identifiers() {
    let kind = error_kind(vec![
        text("hello"),
        TokenKind::LeftParen,
        text("hello"),
        TokenKind::Comma,
        number("10.0"),
        TokenKind::RightParen,
        TokenKind::Eof,
    ]);
    assert!(matches!(kind, TokenKind::LeftParen));
}

#[test]
fn it_parses_grouping_expression() {
    let ast = parse(vec![
        TokenKind::LeftParen,
        text("hello"),
        TokenKind::RightParen,
        TokenKind::Eof,
    ])
    .unwrap();
    assert_eq!(
        vec![node(Expression::Grouping(Grouping(Box::new(string("hello")))))],
        ast
    );
}

#[test]
fn it_returns_error_for_unterminated_grouping_expresions() {
    let kind = error_kind(vec![TokenKind::LeftParen, text("hello"), TokenKind::Eof]);
    assert!(matches!(kind, TokenKind::String(_)));
}

#[test]
fn it_parses_true_bool_literal() {
    let ast = parse(vec![TokenKind::True, TokenKind::Eof]).unwrap();
    assert_eq!(vec![node(Expression::Bool(true))], ast);
}

#[test]
fn it_parses_false_bool_literal() {
    let ast = parse(vec![TokenKind::False, TokenKind::Eof]).unwrap();
    assert_eq!(vec![node(Expression::Bool(false))], ast);
}

#[test]
fn it_parses_break_expression() {
    let ast = parse(vec![TokenKind::Break, TokenKind::Eof]).unwrap();
    assert_eq!(vec![node(Expression::Break)], ast);
}

#[test]
fn it_parses_grouping_expression_with_identifiers() {
    let ast = parse(vec![
        id("b"),
        TokenKind::Equal,
        TokenKind::LeftParen,
        id("a"),
        TokenKind::Plus,
        number("1.0"),
        TokenKind::RightParen,
        TokenKind::Asterisk,
        number("2.0"),
        TokenKind::Eof,
    ])
    .unwrap();
    let grouping = node(Expression::Grouping(Grouping(Box::new(binary(
        ident("a"),
        Operator::Plus,
        num("1.0"),
    )))));
    let expected = node(Expression::Assignment(Assignment {
        left: Box::new(ident("b")),
        right: Box::new(binary(grouping, Operator::Asterisk, num("2.0"))),
    }));
    assert_eq!(vec![expected], ast);
}

#[test]
fn it_parses_load_expression() {
    let ast = parse(vec![
        TokenKind::Load,
        TokenKind::LeftParen,
        text("somelib.so"),
        TokenKind::RightParen,
        TokenKind::Eof,
    ])
    .unwrap();
    assert_eq!(
        vec![node(Expression::Load("somelib.so".to_string()))],
        ast
    );
}

#[test]
fn dont_allow_args_without_commas_in_between() {
    let mut parser = Parser::new(&[
        token(TokenKind::Identifier("test".to_string())),
        token(TokenKind::LeftParen),
        token(TokenKind::Identifier("a".to_string())),
        token(TokenKind::Identifier("b".to_string())),
        token(TokenKind::RightParen),
    ]);

    assert!(matches!(parser.parse(), Err(_)));
}
