//! The abstract syntax tree the parser builds, and its mathematical model.

use vstd::prelude::*;

use crate::parser::{Param, ParamView, Span, Type};

verus! {

/// Operators of binary and unary expressions.
#[derive(Debug, Clone, Copy, PartialEq, Eq)]
pub enum Operator {
    Plus,
    LessOrEqual,
    Less,
    Minus,
    Asterisk,
    Slash,
    Equal,
    Mod,
    NotEqual,
    Greater,
    GreaterOrEqual,
}

/// `left <operator> right`.
#[derive(Debug, PartialEq)]
pub struct Binary {
    pub left: Box<Node>,
    pub operator: Operator,
    pub right: Box<Node>,
}

/// `if predicate { body } else { else_body }`.
#[derive(Debug, PartialEq)]
pub struct Conditional {
    pub predicate: Box<Node>,
    pub body: Vec<Node>,
    pub else_body: Vec<Node>,
}

/// `left = right`.
#[derive(Debug, PartialEq)]
pub struct Assignment {
    pub left: Box<Node>,
    pub right: Box<Node>,
}

/// `while predicate { body }`.
#[derive(Debug, PartialEq)]
pub struct While {
    pub predicate: Box<Node>,
    pub body: Vec<Node>,
}

/// `<operator> right`.
#[derive(Debug, PartialEq)]
pub struct Unary {
    pub operator: Operator,
    pub right: Box<Node>,
}

/// `calee(args)`.
#[derive(Debug, PartialEq)]
pub struct FuncCall {
    pub calee: Box<Node>,
    pub args: Vec<Node>,
}

/// `(params): return_type => { body }`.
#[derive(Debug, PartialEq)]
pub struct FuncDecl {
    pub params: Vec<Param>,
    pub body: Vec<Node>,
    pub return_type: Type,
}

/// `extern <types, return_type>("name")`: a function of a loaded library.
#[derive(Debug, PartialEq)]
pub struct Extern {
    pub types: Vec<Type>,
    pub return_type: Type,
    pub name: String,
}

/// `(expression)`.
#[derive(Debug, PartialEq)]
pub struct Grouping(pub Box<Node>);

/// An expression of the language. A numeric literal keeps the characters it was
/// written with.
#[derive(Debug, PartialEq)]
pub enum Expression {
    Break,
    Bool(bool),
    String(String),
    Identifier(String),
    Numeric(String),
    Conditional(Conditional),
    Assignment(Assignment),
    Binary(Binary),
    While(While),
    Unary(Unary),
    Grouping(Grouping),
    FuncCall(FuncCall),
    FuncDecl(FuncDecl),
    Load(String),
    Extern(Extern),
}

/// An expression with the span of the token that completed it.
#[derive(Debug, PartialEq)]
pub struct Node {
    pub expression: Expression,
    pub span: Span,
}

/// Mathematical model of an expression.
pub enum Expr {
    Break,
    Bool(bool),
    String(Seq<char>),
    Identifier(Seq<char>),
    Numeric(Seq<char>),
    Conditional { predicate: Box<Tree>, body: Seq<Tree>, else_body: Seq<Tree> },
    Assignment { left: Box<Tree>, right: Box<Tree> },
    Binary { left: Box<Tree>, operator: Operator, right: Box<Tree> },
    While { predicate: Box<Tree>, body: Seq<Tree> },
    Unary { operator: Operator, right: Box<Tree> },
    Grouping(Box<Tree>),
    FuncCall { calee: Box<Tree>, args: Seq<Tree> },
    FuncDecl { params: Seq<ParamView>, body: Seq<Tree>, return_type: Type },
    Load(Seq<char>),
    Extern { types: Seq<Type>, return_type: Type, name: Seq<char> },
}

/// Mathematical model of a node.
pub struct Tree {
    pub expr: Expr,
    pub span: Span,
}

/// The model of a sequence of nodes.
pub open spec fn trees(nodes: Seq<Node>) -> Seq<Tree>
    decreases nodes,
{
    Seq::new(
        nodes.len(),
        |i: int|
            if 0 <= i < nodes.len() {
                tree(nodes[i])
            } else {
                Tree { expr: Expr::Break, span: Span { line: 0, column: 0 } }
            },
    )
}

/// The model of a node.
pub open spec fn tree(node: Node) -> Tree
    decreases node,
{
    Tree { expr: expr_of(node.expression), span: node.span }
}

/// The model of an expression.
pub open spec fn expr_of(e: Expression) -> Expr
    decreases e,
{
    match e {
        Expression::Break => Expr::Break,
        Expression::Bool(b) => Expr::Bool(b),
        Expression::String(s) => Expr::String(s@),
        Expression::Identifier(s) => Expr::Identifier(s@),
        Expression::Numeric(s) => Expr::Numeric(s@),
        Expression::Conditional(c) => Expr::Conditional {
            predicate: Box::new(tree(*c.predicate)),
            body: trees(c.body@),
            else_body: trees(c.else_body@),
        },
        Expression::Assignment(a) => Expr::Assignment {
            left: Box::new(tree(*a.left)),
            right: Box::new(tree(*a.right)),
        },
        Expression::Binary(b) => Expr::Binary {
            left: Box::new(tree(*b.left)),
            operator: b.operator,
            right: Box::new(tree(*b.right)),
        },
        Expression::While(w) => Expr::While {
            predicate: Box::new(tree(*w.predicate)),
            body: trees(w.body@),
        },
        Expression::Unary(u) => Expr::Unary { operator: u.operator, right: Box::new(tree(*u.right)) },
        Expression::Grouping(g) => Expr::Grouping(Box::new(tree(*g.0))),
        Expression::FuncCall(f) => Expr::FuncCall {
            calee: Box::new(tree(*f.calee)),
            args: trees(f.args@),
        },
        Expression::FuncDecl(f) => Expr::FuncDecl {
            params: f.params@.map_values(|p: Param| p@),
            body: trees(f.body@),
            return_type: f.return_type,
        },
        Expression::Load(s) => Expr::Load(s@),
        Expression::Extern(x) => Expr::Extern {
            types: x.types@,
            return_type: x.return_type,
            name: x.name@,
        },
    }
}

impl View for Node {
    type V = Tree;

    open spec fn view(&self) -> Tree {
        tree(*self)
    }
}

} // verus!
