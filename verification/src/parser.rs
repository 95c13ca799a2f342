//! Recursive-descent parser turning tokens into an abstract syntax tree.

use vstd::prelude::*;

use crate::expression::{
    trees, Assignment, Binary, Conditional, Expression, Extern, FuncCall, FuncDecl, Grouping,
    Node, Operator, Unary, While,
};
use crate::grammar::{
    advanced_token, can_advance, lemma_prefixed_params_twice, lemma_prefixed_twice, next_pos,
    prefixed, prefixed_params, Level, Params, Parsed,
};
use crate::grammar;
use crate::text::{decimal, push_char, push_decimal, string_of, text_is};
use crate::token::{kind_display, Token, TokenKind, TokenKindOf, TokenOf, TokenView};

verus! {

/// The types a function's parameters, results and externs are declared with.
#[derive(Copy, Clone, Debug, PartialEq, Eq)]
pub enum Type {
    Numeric,
    Bool,
    Vector,
    Void,
    Function,
    Ptr,
    String,
    CString,
}

/// The name under which a type is displayed.
pub open spec fn type_label(t: Type) -> Seq<char> {
    match t {
        Type::Numeric => "Numeric"@,
        Type::Bool => "Bool"@,
        Type::Vector => "Vector"@,
        Type::Void => "Void"@,
        Type::Function => "Function"@,
        Type::Ptr => "Ptr"@,
        Type::String => "String"@,
        Type::CString => "CString"@,
    }
}

impl Type {
    /// The type's name, e.g. `Numeric`.
    pub fn to_string(&self) -> (r: String)
        ensures
            r@ == type_label(*self),
    {
        let name = match self {
            Type::Numeric => "Numeric",
            Type::Bool => "Bool",
            Type::Vector => "Vector",
            Type::Void => "Void",
            Type::Function => "Function",
            Type::Ptr => "Ptr",
            Type::String => "String",
            Type::CString => "CString",
        };
        string_of(name)
    }
}

/// A declared function parameter. The type parameter is the representation of
/// the name: `String` for [`Param`], `Seq<char>` for [`ParamView`].
#[derive(Debug, PartialEq)]
pub struct ParamOf<S> {
    pub typ: Type,
    pub name: S,
}

pub type Param = ParamOf<String>;

pub type ParamView = ParamOf<Seq<char>>;

impl View for ParamOf<String> {
    type V = ParamView;

    open spec fn view(&self) -> ParamView {
        ParamOf { typ: self.typ, name: self.name@ }
    }
}

impl Clone for ParamOf<String> {
    fn clone(&self) -> (r: Self)
        ensures
            r == *self,
    {
        ParamOf { typ: self.typ, name: self.name.clone() }
    }
}

/// A position in the source: the line, counted from 1, and the column the
/// tokenizer had reached on it when it recorded a token.
#[derive(Debug, Clone, Copy, PartialEq, Eq)]
pub struct Span {
    pub line: u32,
    pub column: u32,
}

/// How a span is displayed: `line:column`.
pub open spec fn span_text(span: Span) -> Seq<char> {
    decimal(span.line as nat) + seq![':'] + decimal(span.column as nat)
}

impl Default for Span {
    fn default() -> (r: Self)
        ensures
            r.line == 0 && r.column == 0,
    {
        Span { line: 0, column: 0 }
    }
}

impl Span {
    /// `line:column`.
    pub fn to_string(&self) -> (r: String)
        ensures
            r@ == span_text(*self),
    {
        let mut r = String::new();
        push_decimal(&mut r, self.line as u64);
        push_char(&mut r, ':');
        push_decimal(&mut r, self.column as u64);
        r
    }
}


// ---------------------------------------------------------------------------
// The parser.
// ---------------------------------------------------------------------------

/// Why parsing a construct stopped short of a result.
enum Fail {
    /// A syntax error at this token.
    Syntax(Token),
    /// Parsing does not finish: the parser would read past the last token or
    /// repeat the same work forever.
    Stuck,
}

/// Whether an executable result `r`, with the parser left at `pos`, is the
/// outcome `s` of the model.
spec fn agrees(r: Result<Node, Fail>, s: Parsed<crate::expression::Tree>, pos: usize) -> bool {
    match s {
        Parsed::Done(tree, q) => r matches Ok(n) && n@ == tree && pos == q,
        Parsed::Syntax(tok) => r matches Err(Fail::Syntax(x)) && x@ == tok,
        Parsed::Stuck | Parsed::Ended => r matches Err(Fail::Stuck),
    }
}

/// [`agrees`] for a sequence of nodes.
spec fn agrees_all(
    r: Result<Vec<Node>, Fail>,
    s: Parsed<Seq<crate::expression::Tree>>,
    pos: usize,
) -> bool {
    match s {
        Parsed::Done(ts, q) => r matches Ok(v) && trees(v@) == ts && pos == q,
        Parsed::Syntax(tok) => r matches Err(Fail::Syntax(x)) && x@ == tok,
        Parsed::Stuck | Parsed::Ended => r matches Err(Fail::Stuck),
    }
}

/// [`agrees`] for the types of an extern declaration.
spec fn agrees_types(r: Result<Vec<Type>, Fail>, s: Parsed<Seq<Type>>, pos: usize) -> bool {
    match s {
        Parsed::Done(ts, q) => r matches Ok(v) && v@ == ts && pos == q,
        Parsed::Syntax(tok) => r matches Err(Fail::Syntax(x)) && x@ == tok,
        Parsed::Stuck | Parsed::Ended => r matches Err(Fail::Stuck),
    }
}

/// [`agrees`] for a parameter list; `Ok(None)` is [`Params::Back`].
spec fn agrees_params(r: Result<Option<Vec<Param>>, Fail>, s: Params, pos: usize) -> bool {
    match s {
        Params::Done(ps, q) => r matches Ok(Some(v)) && v@.map_values(|x: Param| x@) == ps && pos
            == q,
        Params::Back => r matches Ok(None),
        Params::Syntax(tok) => r matches Err(Fail::Syntax(x)) && x@ == tok,
        Params::Stuck | Params::Ended => r matches Err(Fail::Stuck),
    }
}

/// The type a parameter or extern declaration names.
fn type_from_literal(lit: &String) -> (r: Option<Type>)
    ensures
        r == grammar::type_named(lit@),
{
    let s = lit.as_str();
    proof {
        reveal_strlit("void");
        reveal_strlit("string");
        reveal_strlit("cstring");
        reveal_strlit("number");
        reveal_strlit("vec");
        reveal_strlit("fun");
        reveal_strlit("ptr");
    }
    if text_is(s, "void") {
        Some(Type::Void)
    } else if text_is(s, "string") {
        Some(Type::String)
    } else if text_is(s, "cstring") {
        Some(Type::CString)
    } else if text_is(s, "number") {
        Some(Type::Numeric)
    } else if text_is(s, "vec") {
        Some(Type::Vector)
    } else if text_is(s, "fun") {
        Some(Type::Function)
    } else if text_is(s, "ptr") {
        Some(Type::Ptr)
    } else {
        None
    }
}

/// The type a function declaration's return type names.
fn return_type_from_literal(lit: &String) -> (r: Option<Type>)
    ensures
        r == grammar::return_type_named(lit@),
{
    let s = lit.as_str();
    proof {
        reveal_strlit("number");
        reveal_strlit("vec");
        reveal_strlit("void");
    }
    if text_is(s, "number") {
        Some(Type::Numeric)
    } else if text_is(s, "vec") {
        Some(Type::Vector)
    } else if text_is(s, "void") {
        Some(Type::Void)
    } else {
        None
    }
}

/// The operator of `kind` at `level`.
fn operator_at(level: Level, kind: &TokenKind) -> (r: Option<Operator>)
    ensures
        r == grammar::level_operator(level, kind@),
{
    match level {
        Level::Comparison => match kind {
            TokenKindOf::DoubleEqual => Some(Operator::Equal),
            TokenKindOf::NotEqual => Some(Operator::NotEqual),
            TokenKindOf::LessOrEqual => Some(Operator::LessOrEqual),
            TokenKindOf::Less => Some(Operator::Less),
            TokenKindOf::Greater => Some(Operator::Greater),
            TokenKindOf::GreaterOrEqual => Some(Operator::GreaterOrEqual),
            _ => None,
        },
        Level::Additive => match kind {
            TokenKindOf::Plus => Some(Operator::Plus),
            TokenKindOf::Minus => Some(Operator::Minus),
            TokenKindOf::Percent => Some(Operator::Mod),
            _ => None,
        },
        Level::Multiplicative => match kind {
            TokenKindOf::Asterisk => Some(Operator::Asterisk),
            TokenKindOf::Slash => Some(Operator::Slash),
            _ => None,
        },
    }
}

/// A parsed program: its top-level expressions.
#[derive(Debug, PartialEq)]
pub struct Program {
    pub body: Vec<Node>,
}

impl Default for Program {
    fn default() -> (r: Self)
        ensures
            r.body@.len() == 0,
    {
        Program { body: Vec::new() }
    }
}

/// A syntax error: the token at which parsing failed.
#[derive(Clone, Debug, PartialEq)]
pub enum ParserError {
    SyntaxError { token: Token },
}

impl ParserError {
    /// `Syntax error: unexpected token <kind> at <line>:<column>`.
    pub fn to_string(&self) -> (r: String)
        ensures
            match self {
                ParserError::SyntaxError { token } => r@ == "Syntax error: unexpected token "@
                    + kind_display(token.kind@) + " at "@ + span_text(token.span),
            },
    {
        match self {
            ParserError::SyntaxError { token } => {
                let mut r = string_of("Syntax error: unexpected token ");
                let kind = token.kind.to_string();
                r.append(kind.as_str());
                r.append(" at ");
                let span = token.span.to_string();
                r.append(span.as_str());
                r
            },
        }
    }
}

/// Parsing interface.
pub trait Parse {
    /// Whether parsing finishes.
    spec fn parsable(&self) -> bool;

    fn parse(&mut self) -> Result<Program, ParserError>
        requires
            old(self).parsable(),
    ;
}

/// A recursive-descent parser over a sequence of tokens.
pub struct Parser {
    tokens: Vec<Token>,
    current: usize,
}

impl View for Parser {
    type V = Seq<TokenView>;

    /// The tokens.
    closed spec fn view(&self) -> Seq<TokenView> {
        self.tokens@.map_values(|t: Token| t@)
    }
}


impl Parser {
    /// The position of the next token to read.
    pub closed spec fn position(&self) -> nat {
        self.current as nat
    }

    closed spec fn wf(&self) -> bool {
        self.current <= self.tokens.len()
    }

    /// A parser at the start of `tokens`.
    pub fn new(tokens: &[Token]) -> (p: Self)
        ensures
            p@ == tokens@.map_values(|t: Token| t@),
            p.position() == 0,
    {
        let mut v: Vec<Token> = Vec::new();
        let mut i: usize = 0;
        while i < tokens.len()
            invariant
                i <= tokens.len(),
                v@ == tokens@.take(i as int),
            decreases tokens.len() - i,
        {
            v.push(tokens[i].clone());
            i = i + 1;
            assert(tokens@.take(i as int) == tokens@.take((i - 1) as int).push(tokens@[i - 1]));
        }
        assert(tokens@.take(tokens.len() as int) =~= tokens@);
        Parser { tokens: v, current: 0 }
    }

    fn is_eof(&self, i: usize) -> (r: bool)
        requires
            i < self.tokens.len(),
        ensures
            r == (self@[i as int].kind is Eof),
    {
        matches!(self.tokens[i].kind, TokenKindOf::Eof)
    }

    fn can_advance(&self) -> (r: bool)
        requires
            self.wf(),
        ensures
            r == can_advance(self@, self.current as nat),
    {
        self.current < self.tokens.len() && (self.current >= 1 || !self.is_eof(self.current))
    }

    /// Moves past the current token unless it is `Eof`.
    fn advance(&mut self)
        requires
            old(self).wf(),
            old(self).current < old(self).tokens.len(),
        ensures
            final(self).wf(),
            final(self)@ == old(self)@,
            final(self).current == next_pos(old(self)@, old(self).current as nat),
    {
        if !self.is_eof(self.current) {
            self.current = self.current + 1;
        }
    }

    /// The token before the current position.
    fn previous(&self) -> (r: &Token)
        requires
            1 <= self.current <= self.tokens.len(),
        ensures
            r@ == self@[self.current - 1],
    {
        &self.tokens[self.current - 1]
    }

    /// The kind of the token at the current position.
    fn peek_kind(&self) -> (r: &TokenKind)
        requires
            self.current < self.tokens.len(),
        ensures
            r@ == self@[self.current as int].kind,
    {
        &self.tokens[self.current].kind
    }

    /// A node for `expression` spanning up to the token before the current
    /// position.
    fn node(&self, expression: Expression) -> (r: Result<Node, Fail>)
        requires
            self.wf(),
        ensures
            agrees(
                r,
                grammar::node_at(self@, self.current as nat, crate::expression::expr_of(expression)),
                self.current,
            ),
    {
        if self.current >= 1 {
            Ok(Node { expression, span: self.tokens[self.current - 1].span })
        } else {
            Err(Fail::Stuck)
        }
    }
}


// Each method below parses one construct from the current position. Its
// contract: the tokens stay as they are, and the result, with the position the
// parser is left at, is what the function of the same name in `grammar` gives.
impl Parser {
    fn expression(&mut self) -> (r: Result<Node, Fail>)
        requires
            old(self).wf(),
        ensures
            final(self).wf(),
            final(self)@ == old(self)@,
            agrees(r, grammar::expression(old(self)@, old(self).current as nat), final(self).current),
        decreases old(self).tokens.len() - old(self).current, 31int,
    {
        self.while_loop()
    }

    fn while_loop(&mut self) -> (r: Result<Node, Fail>)
        requires
            old(self).wf(),
        ensures
            final(self).wf(),
            final(self)@ == old(self)@,
            agrees(r, grammar::while_loop(old(self)@, old(self).current as nat), final(self).current),
        decreases old(self).tokens.len() - old(self).current, 30int,
    {
        if self.current >= self.tokens.len() {
            return Err(Fail::Stuck);
        }
        if !matches!(self.peek_kind(), TokenKindOf::While) {
            return self.conditional();
        }
        let p = self.current;
        self.advance();
        let predicate = match self.expression() {
            Ok(n) => n,
            Err(f) => return Err(f),
        };
        if !(p <= self.current && self.can_advance()) {
            return Err(Fail::Stuck);
        }
        self.advance();
        if !matches!(self.previous().kind, TokenKindOf::LCurly) {
            return Err(Fail::Syntax(self.previous().clone()));
        }
        if self.current <= p {
            return Err(Fail::Stuck);
        }
        let body = match self.block() {
            Ok(b) => b,
            Err(f) => return Err(f),
        };
        self.node(Expression::While(While { predicate: Box::new(predicate), body }))
    }

    fn conditional(&mut self) -> (r: Result<Node, Fail>)
        requires
            old(self).wf(),
        ensures
            final(self).wf(),
            final(self)@ == old(self)@,
            agrees(r, grammar::conditional(old(self)@, old(self).current as nat), final(self).current),
        decreases old(self).tokens.len() - old(self).current, 29int,
    {
        if self.current >= self.tokens.len() {
            return Err(Fail::Stuck);
        }
        if !matches!(self.peek_kind(), TokenKindOf::If) {
            return self.assignment();
        }
        let p = self.current;
        self.advance();
        let predicate = match self.expression() {
            Ok(n) => n,
            Err(f) => return Err(f),
        };
        if !(p <= self.current && self.can_advance()) {
            return Err(Fail::Stuck);
        }
        self.advance();
        if !matches!(self.previous().kind, TokenKindOf::LCurly) {
            return Err(Fail::Syntax(self.previous().clone()));
        }
        if self.current <= p {
            return Err(Fail::Stuck);
        }
        let body = match self.block() {
            Ok(b) => b,
            Err(f) => return Err(f),
        };
        if self.current <= p {
            return Err(Fail::Stuck);
        }
        self.else_part(predicate, body)
    }

    fn else_part(&mut self, predicate: Node, body: Vec<Node>) -> (r: Result<Node, Fail>)
        requires
            old(self).wf(),
        ensures
            final(self).wf(),
            final(self)@ == old(self)@,
            agrees(
                r,
                grammar::else_part(old(self)@, old(self).current as nat, predicate@, trees(body@)),
                final(self).current,
            ),
        decreases old(self).tokens.len() - old(self).current, 28int,
    {
        if self.current >= self.tokens.len() {
            return Err(Fail::Stuck);
        }
        if matches!(self.peek_kind(), TokenKindOf::Else) {
            let p = self.current;
            self.advance();
            if !self.can_advance() {
                return Err(Fail::Stuck);
            }
            self.advance();
            if !matches!(self.previous().kind, TokenKindOf::LCurly) {
                return Err(Fail::Syntax(self.previous().clone()));
            }
            if self.current <= p {
                return Err(Fail::Stuck);
            }
            let else_body = match self.block() {
                Ok(b) => b,
                Err(f) => return Err(f),
            };
            self.node(
                Expression::Conditional(
                    Conditional { predicate: Box::new(predicate), body, else_body },
                ),
            )
        } else {
            let else_body: Vec<Node> = Vec::new();
            proof {
                assert(trees(else_body@) =~= Seq::empty());
            }
            self.node(
                Expression::Conditional(
                    Conditional { predicate: Box::new(predicate), body, else_body },
                ),
            )
        }
    }

    fn assignment(&mut self) -> (r: Result<Node, Fail>)
        requires
            old(self).wf(),
        ensures
            final(self).wf(),
            final(self)@ == old(self)@,
            agrees(r, grammar::assignment(old(self)@, old(self).current as nat), final(self).current),
        decreases old(self).tokens.len() - old(self).current, 27int,
    {
        let p0 = self.current;
        let left = match self.binary(Level::Comparison) {
            Ok(n) => n,
            Err(f) => return Err(f),
        };
        if self.current < p0 {
            return Err(Fail::Stuck);
        }
        self.assignments(left)
    }

    fn assignments(&mut self, left: Node) -> (r: Result<Node, Fail>)
        requires
            old(self).wf(),
        ensures
            final(self).wf(),
            final(self)@ == old(self)@,
            agrees(
                r,
                grammar::assignments(old(self)@, old(self).current as nat, left@),
                final(self).current,
            ),
        decreases old(self).tokens.len() - old(self).current, 26int,
    {
        let ghost t = self@;
        let ghost goal = grammar::assignments(t, self.current as nat, left@);
        assert(goal == grammar::assignments(old(self)@, old(self).current as nat, left@));
        let mut expr = left;
        loop
            invariant
                self.wf(),
                self@ == t,
                t == old(self)@,
                old(self).current <= self.current,
                goal == grammar::assignments(old(self)@, old(self).current as nat, left@),
                goal == grammar::assignments(t, self.current as nat, expr@),
            decreases t.len() - self.current,
        {
            if self.current >= self.tokens.len() {
                return Err(Fail::Stuck);
            }
            if !matches!(self.peek_kind(), TokenKindOf::Equal) {
                return Ok(expr);
            }
            let p = self.current;
            self.advance();
            let right = match self.binary(Level::Comparison) {
                Ok(n) => n,
                Err(f) => return Err(f),
            };
            if self.current <= p {
                return Err(Fail::Stuck);
            }
            expr = match self.node(
                Expression::Assignment(Assignment { left: Box::new(expr), right: Box::new(right) }),
            ) {
                Ok(n) => n,
                Err(f) => return Err(f),
            };
        }
    }

    fn binary(&mut self, level: Level) -> (r: Result<Node, Fail>)
        requires
            old(self).wf(),
        ensures
            final(self).wf(),
            final(self)@ == old(self)@,
            agrees(r, grammar::binary(old(self)@, old(self).current as nat, level), final(self).current),
        decreases old(self).tokens.len() - old(self).current, match level {
            Level::Comparison => 25int,
            Level::Additive => 23int,
            Level::Multiplicative => 21int,
        },
    {
        let ghost t = self@;
        let p0 = self.current;
        let first = match level {
            Level::Comparison => self.binary(Level::Additive),
            Level::Additive => self.binary(Level::Multiplicative),
            Level::Multiplicative => self.unary(),
        };
        let mut expr = match first {
            Ok(n) => n,
            Err(f) => return Err(f),
        };
        if self.current < p0 {
            return Err(Fail::Stuck);
        }
        loop
            invariant
                self.wf(),
                self@ == t,
                t == old(self)@,
                p0 == old(self).current,
                p0 <= self.current,
                grammar::binary(t, p0 as nat, level) == grammar::binary_rest(
                    t,
                    self.current as nat,
                    level,
                    expr@,
                ),
            decreases t.len() - self.current,
        {
            if self.current >= self.tokens.len() {
                return Err(Fail::Stuck);
            }
            let operator = match operator_at(level, self.peek_kind()) {
                Some(o) => o,
                None => return Ok(expr),
            };
            let p = self.current;
            self.advance();
            let right = match level {
                Level::Comparison => self.binary(Level::Additive),
                Level::Additive => self.binary(Level::Multiplicative),
                Level::Multiplicative => self.unary(),
            };
            let right = match right {
                Ok(n) => n,
                Err(f) => return Err(f),
            };
            if self.current <= p {
                return Err(Fail::Stuck);
            }
            expr = match self.node(
                Expression::Binary(Binary { left: Box::new(expr), operator, right: Box::new(right) }),
            ) {
                Ok(n) => n,
                Err(f) => return Err(f),
            };
        }
    }

    fn unary(&mut self) -> (r: Result<Node, Fail>)
        requires
            old(self).wf(),
        ensures
            final(self).wf(),
            final(self)@ == old(self)@,
            agrees(r, grammar::unary(old(self)@, old(self).current as nat), final(self).current),
        decreases old(self).tokens.len() - old(self).current, 19int,
    {
        if self.current >= self.tokens.len() {
            return Err(Fail::Stuck);
        }
        if !matches!(self.peek_kind(), TokenKindOf::Minus) {
            return self.extern_decl();
        }
        self.advance();
        let right = match self.unary() {
            Ok(n) => n,
            Err(f) => return Err(f),
        };
        self.node(Expression::Unary(Unary { operator: Operator::Minus, right: Box::new(right) }))
    }

    fn extern_decl(&mut self) -> (r: Result<Node, Fail>)
        requires
            old(self).wf(),
        ensures
            final(self).wf(),
            final(self)@ == old(self)@,
            agrees(r, grammar::extern_decl(old(self)@, old(self).current as nat), final(self).current),
        decreases old(self).tokens.len() - old(self).current, 18int,
    {
        if self.current >= self.tokens.len() {
            return Err(Fail::Stuck);
        }
        if !matches!(self.peek_kind(), TokenKindOf::Extern) {
            return self.func_decl();
        }
        let p = self.current;
        self.advance();
        if !self.can_advance() {
            return Err(Fail::Stuck);
        }
        self.advance();
        if !matches!(self.previous().kind, TokenKindOf::Less) {
            return Err(Fail::Syntax(self.previous().clone()));
        }
        if self.current <= p {
            return Err(Fail::Stuck);
        }
        let types = match self.extern_types() {
            Ok(v) => v,
            Err(f) => return Err(f),
        };
        self.extern_name(types)
    }

    fn func_decl(&mut self) -> (r: Result<Node, Fail>)
        requires
            old(self).wf(),
        ensures
            final(self).wf(),
            final(self)@ == old(self)@,
            agrees(r, grammar::func_decl(old(self)@, old(self).current as nat), final(self).current),
        decreases old(self).tokens.len() - old(self).current, 16int,
    {
        if self.current >= self.tokens.len() {
            return Err(Fail::Stuck);
        }
        if !matches!(self.peek_kind(), TokenKindOf::LeftParen) {
            return self.func_call();
        }
        let saved = self.current;
        self.advance();
        match self.params() {
            Ok(Some(ps)) => {
                if self.current <= saved {
                    return Err(Fail::Stuck);
                }
                self.func_body(ps)
            },
            Ok(None) => {
                self.current = saved;
                self.func_call()
            },
            Err(f) => Err(f),
        }
    }

    fn func_body(&mut self, params: Vec<Param>) -> (r: Result<Node, Fail>)
        requires
            old(self).wf(),
        ensures
            final(self).wf(),
            final(self)@ == old(self)@,
            agrees(
                r,
                grammar::func_body(
                    old(self)@,
                    old(self).current as nat,
                    params@.map_values(|p: Param| p@),
                ),
                final(self).current,
            ),
        decreases old(self).tokens.len() - old(self).current, 33int,
    {
        if !self.can_advance() {
            return Err(Fail::Stuck);
        }
        let p = self.current;
        self.advance();
        if !matches!(self.previous().kind, TokenKindOf::Colon) {
            return Err(Fail::Syntax(self.previous().clone()));
        }
        if !self.can_advance() {
            return Err(Fail::Stuck);
        }
        self.advance();
        let return_type = match &self.previous().kind {
            TokenKindOf::Identifier(lit) => match return_type_from_literal(lit) {
                Some(t) => t,
                None => return Err(Fail::Syntax(self.previous().clone())),
            },
            _ => return Err(Fail::Syntax(self.previous().clone())),
        };
        if !self.can_advance() {
            return Err(Fail::Stuck);
        }
        self.advance();
        if !matches!(self.previous().kind, TokenKindOf::Arrow) {
            return Err(Fail::Syntax(self.previous().clone()));
        }
        if !self.can_advance() {
            return Err(Fail::Stuck);
        }
        self.advance();
        if !matches!(self.previous().kind, TokenKindOf::LCurly) {
            return Err(Fail::Syntax(self.previous().clone()));
        }
        if self.current < p {
            return Err(Fail::Stuck);
        }
        let body = match self.block() {
            Ok(b) => b,
            Err(f) => return Err(f),
        };
        self.node(Expression::FuncDecl(FuncDecl { params, body, return_type }))
    }

    fn func_call(&mut self) -> (r: Result<Node, Fail>)
        requires
            old(self).wf(),
        ensures
            final(self).wf(),
            final(self)@ == old(self)@,
            agrees(r, grammar::func_call(old(self)@, old(self).current as nat), final(self).current),
        decreases old(self).tokens.len() - old(self).current, 15int,
    {
        let ghost t = self@;
        let p0 = self.current;
        let mut expr = match self.load() {
            Ok(n) => n,
            Err(f) => return Err(f),
        };
        if self.current < p0 {
            return Err(Fail::Stuck);
        }
        loop
            invariant
                self.wf(),
                self@ == t,
                t == old(self)@,
                p0 == old(self).current,
                p0 <= self.current,
                grammar::func_call(t, p0 as nat) == grammar::calls(t, self.current as nat, expr@),
            decreases t.len() - self.current,
        {
            if self.current >= self.tokens.len() {
                return Err(Fail::Stuck);
            }
            if !matches!(self.peek_kind(), TokenKindOf::LeftParen) {
                return Ok(expr);
            }
            if !matches!(expr.expression, Expression::Identifier(_)) {
                return Err(Fail::Syntax(self.tokens[self.current].clone()));
            }
            let p = self.current;
            self.advance();
            let args = match self.arguments() {
                Ok(v) => v,
                Err(f) => return Err(f),
            };
            if self.current <= p {
                return Err(Fail::Stuck);
            }
            expr = match self.node(
                Expression::FuncCall(FuncCall { calee: Box::new(expr), args }),
            ) {
                Ok(n) => n,
                Err(f) => return Err(f),
            };
        }
    }

    fn load(&mut self) -> (r: Result<Node, Fail>)
        requires
            old(self).wf(),
        ensures
            final(self).wf(),
            final(self)@ == old(self)@,
            agrees(r, grammar::load(old(self)@, old(self).current as nat), final(self).current),
        decreases old(self).tokens.len() - old(self).current, 13int,
    {
        if self.current >= self.tokens.len() {
            return Err(Fail::Stuck);
        }
        if !matches!(self.peek_kind(), TokenKindOf::Load) {
            return self.primary();
        }
        self.advance();
        if !self.can_advance() {
            return Err(Fail::Stuck);
        }
        self.advance();
        if !matches!(self.previous().kind, TokenKindOf::LeftParen) {
            return Err(Fail::Syntax(self.previous().clone()));
        }
        if !self.can_advance() {
            return Err(Fail::Stuck);
        }
        self.advance();
        let name = match &self.previous().kind {
            TokenKindOf::String(s) => s.clone(),
            _ => return Err(Fail::Syntax(self.previous().clone())),
        };
        if !self.can_advance() {
            return Err(Fail::Stuck);
        }
        self.advance();
        if !matches!(self.previous().kind, TokenKindOf::RightParen) {
            return Err(Fail::Syntax(self.previous().clone()));
        }
        self.node(Expression::Load(name))
    }

    #[verifier::rlimit(30)]
    #[verifier::spinoff_prover]
    fn primary(&mut self) -> (r: Result<Node, Fail>)
        requires
            old(self).wf(),
        ensures
            final(self).wf(),
            final(self)@ == old(self)@,
            agrees(r, grammar::primary(old(self)@, old(self).current as nat), final(self).current),
        decreases old(self).tokens.len() - old(self).current, 12int,
    {
        if !self.can_advance() {
            return Err(Fail::Stuck);
        }
        let p = self.current;
        self.advance();
        let kind = self.previous().kind.clone();
        match kind {
            TokenKindOf::Numeric(v) => self.node(Expression::Numeric(v)),
            TokenKindOf::LeftParen => {
                if self.current <= p {
                    return Err(Fail::Stuck);
                }
                let q = self.current;
                let inner = match self.expression() {
                    Ok(n) => n,
                    Err(f) => return Err(f),
                };
                if !(q <= self.current && self.can_advance()) {
                    return Err(Fail::Stuck);
                }
                self.advance();
                if !matches!(self.previous().kind, TokenKindOf::RightParen) {
                    return Err(Fail::Syntax(self.previous().clone()));
                }
                self.node(Expression::Grouping(Grouping(Box::new(inner))))
            },
            TokenKindOf::Identifier(name) => self.node(Expression::Identifier(name)),
            TokenKindOf::String(text) => self.node(Expression::String(text)),
            TokenKindOf::True => self.node(Expression::Bool(true)),
            TokenKindOf::False => self.node(Expression::Bool(false)),
            TokenKindOf::Break => self.node(Expression::Break),
            _ => Err(Fail::Syntax(self.previous().clone())),
        }
    }

    fn block(&mut self) -> (r: Result<Vec<Node>, Fail>)
        requires
            old(self).wf(),
        ensures
            final(self).wf(),
            final(self)@ == old(self)@,
            agrees_all(r, grammar::block(old(self)@, old(self).current as nat), final(self).current),
        decreases old(self).tokens.len() - old(self).current, 32int,
    {
        let ghost t = self@;
        let p0 = self.current;
        let mut body: Vec<Node> = Vec::new();
        proof {
            assert(trees(body@) + Seq::empty() =~= Seq::<crate::expression::Tree>::empty());
        }
        loop
            invariant
                self.wf(),
                self@ == t,
                t == old(self)@,
                p0 == old(self).current,
                p0 <= self.current,
                grammar::block(t, p0 as nat) == prefixed(trees(body@), grammar::block(t, self.current as nat)),
            decreases t.len() - self.current,
        {
            if self.current >= self.tokens.len() {
                return Err(Fail::Stuck);
            }
            if matches!(self.peek_kind(), TokenKindOf::RCurly) {
                self.advance();
                proof {
                    assert(trees(body@) + Seq::empty() =~= trees(body@));
                }
                return Ok(body);
            }
            let p = self.current;
            let e = match self.expression() {
                Ok(n) => n,
                Err(f) => return Err(f),
            };
            if self.current <= p {
                return Err(Fail::Stuck);
            }
            proof {
                lemma_prefixed_twice(
                    trees(body@),
                    seq![e@],
                    grammar::block(t, self.current as nat),
                );
            }
            let ghost before = body@;
            body.push(e);
            proof {
                assert(trees(body@) =~= trees(before) + seq![e@]);
            }
        }
    }

    fn arguments(&mut self) -> (r: Result<Vec<Node>, Fail>)
        requires
            old(self).wf(),
        ensures
            final(self).wf(),
            final(self)@ == old(self)@,
            agrees_all(r, grammar::arguments(old(self)@, old(self).current as nat), final(self).current),
        decreases old(self).tokens.len() - old(self).current, 32int,
    {
        let ghost t = self@;
        let p0 = self.current;
        let mut args: Vec<Node> = Vec::new();
        proof {
            assert(trees(args@) + Seq::empty() =~= Seq::<crate::expression::Tree>::empty());
        }
        loop
            invariant
                self.wf(),
                self@ == t,
                t == old(self)@,
                p0 == old(self).current,
                p0 <= self.current,
                grammar::arguments(t, p0 as nat) == prefixed(
                    trees(args@),
                    grammar::arguments(t, self.current as nat),
                ),
            decreases t.len() - self.current,
        {
            if self.current >= self.tokens.len() {
                return Err(Fail::Stuck);
            }
            if matches!(self.peek_kind(), TokenKindOf::RightParen) {
                self.advance();
                proof {
                    assert(trees(args@) + Seq::empty() =~= trees(args@));
                }
                return Ok(args);
            }
            let p = self.current;
            let e = match self.expression() {
                Ok(n) => n,
                Err(f) => return Err(f),
            };
            if !(p <= self.current && self.current < self.tokens.len()) {
                return Err(Fail::Stuck);
            }
            let ghost before = args@;
            if matches!(self.peek_kind(), TokenKindOf::RightParen) {
                self.advance();
                args.push(e);
                proof {
                    assert(trees(args@) =~= trees(before) + seq![e@]);
                }
                return Ok(args);
            }
            if !self.can_advance() {
                return Err(Fail::Stuck);
            }
            self.advance();
            if !matches!(self.previous().kind, TokenKindOf::Comma) {
                return Err(Fail::Syntax(self.previous().clone()));
            }
            if self.current <= p {
                return Err(Fail::Stuck);
            }
            proof {
                lemma_prefixed_twice(
                    trees(args@),
                    seq![e@],
                    grammar::arguments(t, self.current as nat),
                );
            }
            args.push(e);
            proof {
                assert(trees(args@) =~= trees(before) + seq![e@]);
            }
        }
    }

    fn extern_types(&mut self) -> (r: Result<Vec<Type>, Fail>)
        requires
            old(self).wf(),
        ensures
            final(self).wf(),
            final(self)@ == old(self)@,
            agrees_types(
                r,
                grammar::extern_types(old(self)@, old(self).current as nat),
                final(self).current,
            ),
    {
        let ghost t = self@;
        let ghost p0 = self.current as nat;
        let mut types: Vec<Type> = Vec::new();
        proof {
            assert(types@ + Seq::empty() =~= Seq::<Type>::empty());
        }
        loop
            invariant
                self.wf(),
                self@ == t,
                t == old(self)@,
                p0 == old(self).current,
                grammar::extern_types(t, p0) == prefixed(
                    types@,
                    grammar::extern_types(t, self.current as nat),
                ),
            decreases t.len() - self.current,
        {
            if !self.can_advance() {
                return Err(Fail::Stuck);
            }
            let p = self.current;
            self.advance();
            let tok = self.previous();
            match &tok.kind {
                TokenKindOf::Identifier(name) => match type_from_literal(name) {
                    Some(typ) => {
                        if self.current <= p {
                            return Err(Fail::Stuck);
                        }
                        proof {
                            lemma_prefixed_twice(
                                types@,
                                seq![typ],
                                grammar::extern_types(t, self.current as nat),
                            );
                        }
                        let ghost before = types@;
                        types.push(typ);
                        proof {
                            assert(types@ =~= before + seq![typ]);
                        }
                    },
                    None => return Err(Fail::Syntax(tok.clone())),
                },
                TokenKindOf::Comma => {
                    if self.current <= p {
                        return Err(Fail::Stuck);
                    }
                },
                TokenKindOf::Greater => {
                    proof {
                        assert(types@ + Seq::empty() =~= types@);
                    }
                    return Ok(types);
                },
                _ => return Err(Fail::Syntax(tok.clone())),
            }
        }
    }

    fn extern_name(&mut self, types: Vec<Type>) -> (r: Result<Node, Fail>)
        requires
            old(self).wf(),
        ensures
            final(self).wf(),
            final(self)@ == old(self)@,
            agrees(
                r,
                grammar::extern_name(old(self)@, old(self).current as nat, types@),
                final(self).current,
            ),
    {
        if !self.can_advance() {
            return Err(Fail::Stuck);
        }
        self.advance();
        if !matches!(self.previous().kind, TokenKindOf::LeftParen) {
            return Err(Fail::Syntax(self.previous().clone()));
        }
        if !self.can_advance() {
            return Err(Fail::Stuck);
        }
        self.advance();
        let name = match &self.previous().kind {
            TokenKindOf::String(s) => s.clone(),
            _ => return Err(Fail::Syntax(self.previous().clone())),
        };
        if !self.can_advance() {
            return Err(Fail::Stuck);
        }
        self.advance();
        if !matches!(self.previous().kind, TokenKindOf::RightParen) {
            return Err(Fail::Syntax(self.previous().clone()));
        }
        let mut types = types;
        let return_type = match types.pop() {
            Some(t) => t,
            None => return Err(Fail::Syntax(self.previous().clone())),
        };
        self.node(Expression::Extern(Extern { types, return_type, name }))
    }

    fn params(&mut self) -> (r: Result<Option<Vec<Param>>, Fail>)
        requires
            old(self).wf(),
        ensures
            final(self).wf(),
            final(self)@ == old(self)@,
            agrees_params(r, grammar::params(old(self)@, old(self).current as nat), final(self).current),
    {
        let ghost t = self@;
        let ghost p0 = self.current as nat;
        let mut ps: Vec<Param> = Vec::new();
        proof {
            assert(ps@.map_values(|p: Param| p@) + Seq::empty() =~= Seq::<ParamView>::empty());
        }
        loop
            invariant
                self.wf(),
                self@ == t,
                t == old(self)@,
                p0 == old(self).current,
                grammar::params(t, p0) == prefixed_params(
                    ps@.map_values(|p: Param| p@),
                    grammar::params(t, self.current as nat),
                ),
            decreases t.len() - self.current,
        {
            if !self.can_advance() {
                return Err(Fail::Stuck);
            }
            let p = self.current;
            self.advance();
            let kind = self.previous().kind.clone();
            match kind {
                TokenKindOf::Identifier(name) => {
                    if !self.can_advance() {
                        return Err(Fail::Stuck);
                    }
                    self.advance();
                    if !matches!(self.previous().kind, TokenKindOf::Colon) {
                        return Ok(None);
                    }
                    if !self.can_advance() {
                        return Err(Fail::Stuck);
                    }
                    self.advance();
                    let typ = match &self.previous().kind {
                        TokenKindOf::Identifier(lit) => match type_from_literal(lit) {
                            Some(typ) => typ,
                            None => return Err(Fail::Syntax(self.previous().clone())),
                        },
                        _ => return Err(Fail::Syntax(self.previous().clone())),
                    };
                    if self.current <= p {
                        return Err(Fail::Stuck);
                    }
                    let param = ParamOf { typ, name };
                    proof {
                        lemma_prefixed_params_twice(
                            ps@.map_values(|p: Param| p@),
                            seq![param@],
                            grammar::params(t, self.current as nat),
                        );
                    }
                    let ghost before = ps@;
                    ps.push(param);
                    proof {
                        assert(ps@.map_values(|p: Param| p@) =~= before.map_values(|p: Param| p@)
                            + seq![param@]);
                    }
                },
                TokenKindOf::Comma => {
                    if self.current <= p {
                        return Err(Fail::Stuck);
                    }
                },
                TokenKindOf::RightParen => {
                    proof {
                        assert(ps@.map_values(|p: Param| p@) + Seq::empty() =~= ps@.map_values(
                            |p: Param| p@,
                        ));
                    }
                    return Ok(Some(ps));
                },
                _ => return Ok(None),
            }
        }
    }

    /// Parses a program from the current position: expressions up to `Eof`.
    /// `None` where parsing does not finish: the tokens end before an `Eof`
    /// where one more is needed, or the parser would repeat the same work
    /// forever.
    pub fn try_parse(&mut self) -> (r: Option<Result<Program, ParserError>>)
        ensures
            final(self)@ == old(self)@,
            match grammar::program(old(self)@, old(self).position()) {
                Parsed::Done(body, q) => r matches Some(Ok(prog)) && trees(prog.body@) == body
                    && final(self).position() == q,
                Parsed::Syntax(tok) => r matches Some(Err(ParserError::SyntaxError { token }))
                    && token@ == tok,
                Parsed::Stuck | Parsed::Ended => r is None,
            },
    {
        if self.current > self.tokens.len() {
            return None;
        }
        let ghost t = self@;
        let p0 = self.current;
        let mut statements: Vec<Node> = Vec::new();
        proof {
            assert(trees(statements@) + Seq::empty() =~= Seq::<crate::expression::Tree>::empty());
        }
        loop
            invariant
                self.wf(),
                self@ == t,
                t == old(self)@,
                p0 == old(self).current,
                p0 <= self.current,
                grammar::program(t, p0 as nat) == prefixed(
                    trees(statements@),
                    grammar::program(t, self.current as nat),
                ),
            decreases t.len() - self.current,
        {
            if self.current >= self.tokens.len() {
                return None;
            }
            if self.is_eof(self.current) {
                proof {
                    assert(trees(statements@) + Seq::empty() =~= trees(statements@));
                }
                return Some(Ok(Program { body: statements }));
            }
            let p = self.current;
            let e = match self.expression() {
                Ok(n) => n,
                Err(Fail::Syntax(token)) => return Some(Err(ParserError::SyntaxError { token })),
                Err(Fail::Stuck) => return None,
            };
            if self.current <= p {
                return None;
            }
            proof {
                lemma_prefixed_twice(
                    trees(statements@),
                    seq![e@],
                    grammar::program(t, self.current as nat),
                );
            }
            let ghost before = statements@;
            statements.push(e);
            proof {
                assert(trees(statements@) =~= trees(before) + seq![e@]);
            }
        }
    }
}

impl Parse for Parser {
    /// Parsing finishes where [`Parser::try_parse`] would not give `None`.
    open spec fn parsable(&self) -> bool {
        !(grammar::program(self@, self.position()) is Stuck || grammar::program(
            self@,
            self.position(),
        ) is Ended)
    }

    /// Parses a program from the current position: expressions up to `Eof`.
    fn parse(&mut self) -> (r: Result<Program, ParserError>)
        ensures
            final(self)@ == old(self)@,
            match grammar::program(old(self)@, old(self).position()) {
                Parsed::Done(body, q) => r matches Ok(prog) && trees(prog.body@) == body
                    && final(self).position() == q,
                Parsed::Syntax(tok) => r matches Err(ParserError::SyntaxError { token })
                    && token@ == tok,
                Parsed::Stuck | Parsed::Ended => false,
            },
    {
        match self.try_parse() {
            Some(r) => r,
            None => Err(
                ParserError::SyntaxError {
                    token: TokenOf { kind: TokenKindOf::Eof, span: Span { line: 0, column: 0 } },
                },
            ),
        }
    }
}

} // verus!
