//! Mathematical model of the parser: what parsing a sequence of tokens gives.
//!
//! Every function takes the tokens and the position of the next token to read,
//! and gives either a result with the position after it, the token of a syntax
//! error, `Ended` where it reads past the last token, or `Stuck` where it would
//! repeat the same work forever because nothing was consumed.

use vstd::prelude::*;

use crate::expression::{Expr, Operator, Tree};
use crate::parser::{ParamOf, ParamView, Type};
use crate::token::{TokenKindOf, TokenKindView, TokenView};
use crate::tokenizer::{ends_with_eof, lemma_tokens_end_with_eof, tokenize_spec, Lexed};

verus! {

/// The outcome of parsing one construct.
pub enum Parsed<T> {
    /// The construct and the position after it.
    Done(T, nat),
    /// A syntax error at this token.
    Syntax(TokenView),
    /// Parsing reads past the last token, or looks back before the first.
    Ended,
    /// Parsing repeats the same work forever.
    Stuck,
}

/// The outcome of reading a parenthesized parameter list.
pub enum Params {
    Done(Seq<ParamView>, nat),
    /// Not a parameter list: the parenthesis starts a call or a grouping.
    Back,
    Syntax(TokenView),
    /// Parsing reads past the last token, or looks back before the first.
    Ended,
    /// Parsing repeats the same work forever.
    Stuck,
}

/// The kind of the token at `p`.
pub open spec fn kind_at(t: Seq<TokenView>, p: nat) -> TokenKindView {
    t[p as int].kind
}

/// Whether `p` is a position whose token can be read.
pub open spec fn readable(t: Seq<TokenView>, p: nat) -> bool {
    p < t.len()
}

/// The position after the token at `p`: the parser never moves past `Eof`.
pub open spec fn next_pos(t: Seq<TokenView>, p: nat) -> nat {
    if kind_at(t, p) is Eof { p } else { p + 1 }
}

/// Whether reading the token at `p` (and then looking back at it) stays within
/// the tokens.
pub open spec fn can_advance(t: Seq<TokenView>, p: nat) -> bool {
    p < t.len() && next_pos(t, p) >= 1
}

/// The token the parser gets when it advances from `p`.
pub open spec fn advanced_token(t: Seq<TokenView>, p: nat) -> TokenView {
    t[next_pos(t, p) - 1]
}

/// A node for `e` spanning up to the token before `p`.
pub open spec fn node_at(t: Seq<TokenView>, p: nat, e: Expr) -> Parsed<Tree> {
    if 1 <= p <= t.len() {
        Parsed::Done(Tree { expr: e, span: t[p - 1].span }, p)
    } else {
        Parsed::Ended
    }
}

/// Whether `q`, a position a part of a construct that started at `p` ended at,
/// lies between `p` and the end.
pub open spec fn within(t: Seq<TokenView>, p: nat, q: nat) -> bool {
    p <= q <= t.len()
}

/// The type a parameter or extern declaration names.
pub open spec fn type_named(name: Seq<char>) -> Option<Type> {
    if name == "void"@ {
        Some(Type::Void)
    } else if name == "string"@ {
        Some(Type::String)
    } else if name == "cstring"@ {
        Some(Type::CString)
    } else if name == "number"@ {
        Some(Type::Numeric)
    } else if name == "vec"@ {
        Some(Type::Vector)
    } else if name == "fun"@ {
        Some(Type::Function)
    } else if name == "ptr"@ {
        Some(Type::Ptr)
    } else {
        None
    }
}

/// The type a function declaration's return type names.
pub open spec fn return_type_named(name: Seq<char>) -> Option<Type> {
    if name == "number"@ {
        Some(Type::Numeric)
    } else if name == "vec"@ {
        Some(Type::Vector)
    } else if name == "void"@ {
        Some(Type::Void)
    } else {
        None
    }
}

/// A return type names the same type it names as a parameter type, and only
/// a number, a vector or nothing can be returned.
pub proof fn lemma_return_types_are_types(name: Seq<char>)
    ensures
        return_type_named(name) matches Some(t) ==> type_named(name) == Some(t),
        return_type_named(name) is Some <==> (type_named(name) matches Some(t) && (t
            == Type::Numeric || t == Type::Vector || t == Type::Void)),
{
    reveal_strlit("void");
    reveal_strlit("string");
    reveal_strlit("cstring");
    reveal_strlit("number");
    reveal_strlit("vec");
    reveal_strlit("fun");
    reveal_strlit("ptr");
    assert("void"@.len() == 4 && "void"@[0] == 'v');
    assert("string"@.len() == 6 && "string"@[0] == 's');
    assert("cstring"@.len() == 7);
    assert("number"@.len() == 6 && "number"@[0] == 'n');
    assert("vec"@.len() == 3 && "vec"@[0] == 'v');
    assert("fun"@.len() == 3 && "fun"@[0] == 'f');
    assert("ptr"@.len() == 3 && "ptr"@[0] == 'p');
}

/// Different type names name different types.
pub proof fn lemma_type_names_distinct(a: Seq<char>, b: Seq<char>)
    ensures
        type_named(a) is Some && type_named(a) == type_named(b) ==> a == b,
{
    reveal_strlit("void");
    reveal_strlit("string");
    reveal_strlit("cstring");
    reveal_strlit("number");
    reveal_strlit("vec");
    reveal_strlit("fun");
    reveal_strlit("ptr");
    assert("void"@.len() == 4 && "void"@[0] == 'v');
    assert("string"@.len() == 6 && "string"@[0] == 's');
    assert("cstring"@.len() == 7);
    assert("number"@.len() == 6 && "number"@[0] == 'n');
    assert("vec"@.len() == 3 && "vec"@[0] == 'v');
    assert("fun"@.len() == 3 && "fun"@[0] == 'f');
    assert("ptr"@.len() == 3 && "ptr"@[0] == 'p');
}

/// The operator of a comparison token.
pub open spec fn comparison(k: TokenKindView) -> Option<Operator> {
    match k {
        TokenKindOf::DoubleEqual => Some(Operator::Equal),
        TokenKindOf::NotEqual => Some(Operator::NotEqual),
        TokenKindOf::LessOrEqual => Some(Operator::LessOrEqual),
        TokenKindOf::Less => Some(Operator::Less),
        TokenKindOf::Greater => Some(Operator::Greater),
        TokenKindOf::GreaterOrEqual => Some(Operator::GreaterOrEqual),
        _ => None,
    }
}

/// The operator of an additive token.
pub open spec fn additive(k: TokenKindView) -> Option<Operator> {
    match k {
        TokenKindOf::Plus => Some(Operator::Plus),
        TokenKindOf::Minus => Some(Operator::Minus),
        TokenKindOf::Percent => Some(Operator::Mod),
        _ => None,
    }
}

/// The operator of a multiplicative token.
pub open spec fn multiplicative(k: TokenKindView) -> Option<Operator> {
    match k {
        TokenKindOf::Asterisk => Some(Operator::Asterisk),
        TokenKindOf::Slash => Some(Operator::Slash),
        _ => None,
    }
}

/// Which chain of binary operators a level of precedence reads.
#[derive(Clone, Copy)]
pub enum Level {
    Comparison,
    Additive,
    Multiplicative,
}

/// The operator a token of kind `k` is at `level`, if any.
pub open spec fn level_operator(level: Level, k: TokenKindView) -> Option<Operator> {
    match level {
        Level::Comparison => comparison(k),
        Level::Additive => additive(k),
        Level::Multiplicative => multiplicative(k),
    }
}

/// `s` with `prefix` before the items it gives.
pub open spec fn prefixed<A>(prefix: Seq<A>, s: Parsed<Seq<A>>) -> Parsed<Seq<A>> {
    match s {
        Parsed::Done(rest, r) => Parsed::Done(prefix + rest, r),
        Parsed::Syntax(tok) => Parsed::Syntax(tok),
        Parsed::Stuck => Parsed::Stuck,
        Parsed::Ended => Parsed::Ended,
    }
}

/// `s` with `prefix` before the parameters it gives.
pub open spec fn prefixed_params(prefix: Seq<ParamView>, s: Params) -> Params {
    match s {
        Params::Done(rest, r) => Params::Done(prefix + rest, r),
        other => other,
    }
}

/// Prefixing twice is prefixing with both prefixes in turn.
pub proof fn lemma_prefixed_twice<A>(a: Seq<A>, b: Seq<A>, s: Parsed<Seq<A>>)
    ensures
        prefixed(a, prefixed(b, s)) == prefixed(a + b, s),
{
    if let Parsed::Done(rest, r) = s {
        assert(a + (b + rest) =~= (a + b) + rest);
    }
}

/// Prefixing parameters twice is prefixing with both prefixes in turn.
pub proof fn lemma_prefixed_params_twice(a: Seq<ParamView>, b: Seq<ParamView>, s: Params)
    ensures
        prefixed_params(a, prefixed_params(b, s)) == prefixed_params(a + b, s),
{
    if let Params::Done(rest, r) = s {
        assert(a + (b + rest) =~= (a + b) + rest);
    }
}

/// A whole program: expressions up to the first `Eof`.
pub open spec fn program(t: Seq<TokenView>, p: nat) -> Parsed<Seq<Tree>>
    decreases t.len() - p, 40int,
{
    if p >= t.len() {
        Parsed::Ended
    } else if kind_at(t, p) is Eof {
        Parsed::Done(Seq::empty(), p)
    } else {
        match expression(t, p) {
            Parsed::Done(e, q) => if p < q <= t.len() {
                match program(t, q) {
                    Parsed::Done(rest, r) => Parsed::Done(seq![e] + rest, r),
                    other => other,
                }
            } else {
                Parsed::Stuck
            },
            Parsed::Syntax(tok) => Parsed::Syntax(tok),
            Parsed::Stuck => Parsed::Stuck,
            Parsed::Ended => Parsed::Ended,
        }
    }
}

/// A block body: expressions up to and including the closing `}`.
pub open spec fn block(t: Seq<TokenView>, p: nat) -> Parsed<Seq<Tree>>
    decreases t.len() - p, 32int,
{
    if p >= t.len() {
        Parsed::Ended
    } else if kind_at(t, p) is RCurly {
        Parsed::Done(Seq::empty(), next_pos(t, p))
    } else {
        match expression(t, p) {
            Parsed::Done(e, q) => if p < q <= t.len() {
                match block(t, q) {
                    Parsed::Done(rest, r) => Parsed::Done(seq![e] + rest, r),
                    other => other,
                }
            } else {
                Parsed::Stuck
            },
            Parsed::Syntax(tok) => Parsed::Syntax(tok),
            Parsed::Stuck => Parsed::Stuck,
            Parsed::Ended => Parsed::Ended,
        }
    }
}

/// Call arguments after the opening parenthesis, up to and including the closing
/// one.
pub open spec fn arguments(t: Seq<TokenView>, p: nat) -> Parsed<Seq<Tree>>
    decreases t.len() - p, 32int,
{
    if p >= t.len() {
        Parsed::Ended
    } else if kind_at(t, p) is RightParen {
        Parsed::Done(Seq::empty(), next_pos(t, p))
    } else {
        match expression(t, p) {
            Parsed::Done(e, q) => if !within(t, p, q) {
                Parsed::Stuck
            } else if q >= t.len() {
                Parsed::Ended
            } else {
                if kind_at(t, q) is RightParen {
                    Parsed::Done(seq![e], next_pos(t, q))
                } else if !can_advance(t, q) {
                    Parsed::Ended
                } else if !(advanced_token(t, q).kind is Comma) {
                    Parsed::Syntax(advanced_token(t, q))
                } else if next_pos(t, q) <= p {
                    Parsed::Stuck
                } else {
                    match arguments(t, next_pos(t, q)) {
                        Parsed::Done(rest, r) => Parsed::Done(seq![e] + rest, r),
                        other => other,
                    }
                }
            },
            Parsed::Syntax(tok) => Parsed::Syntax(tok),
            Parsed::Stuck => Parsed::Stuck,
            Parsed::Ended => Parsed::Ended,
        }
    }
}

/// Expressions of every kind.
pub open spec fn expression(t: Seq<TokenView>, p: nat) -> Parsed<Tree>
    decreases t.len() - p, 31int,
{
    while_loop(t, p)
}

/// `while <predicate> { <body> }`, or what binds tighter.
pub open spec fn while_loop(t: Seq<TokenView>, p: nat) -> Parsed<Tree>
    decreases t.len() - p, 30int,
{
    if p >= t.len() {
        Parsed::Ended
    } else if kind_at(t, p) is While {
        match expression(t, p + 1) {
            Parsed::Done(predicate, q) => if !within(t, p, q) {
                Parsed::Stuck
            } else if !can_advance(t, q) {
                Parsed::Ended
            } else if !(advanced_token(t, q).kind is LCurly) {
                Parsed::Syntax(advanced_token(t, q))
            } else if next_pos(t, q) <= p {
                Parsed::Stuck
            } else {
                match block(t, next_pos(t, q)) {
                    Parsed::Done(body, r) => node_at(
                        t,
                        r,
                        Expr::While { predicate: Box::new(predicate), body },
                    ),
                    Parsed::Syntax(tok) => Parsed::Syntax(tok),
                    Parsed::Stuck => Parsed::Stuck,
                    Parsed::Ended => Parsed::Ended,
                }
            },
            Parsed::Syntax(tok) => Parsed::Syntax(tok),
            Parsed::Stuck => Parsed::Stuck,
            Parsed::Ended => Parsed::Ended,
        }
    } else {
        conditional(t, p)
    }
}

/// The `else` part of a conditional, if any, completing the conditional.
pub open spec fn else_part(
    t: Seq<TokenView>,
    p: nat,
    predicate: Tree,
    body: Seq<Tree>,
) -> Parsed<Tree>
    decreases t.len() - p, 28int,
{
    if p >= t.len() {
        Parsed::Ended
    } else if kind_at(t, p) is Else {
        let q = next_pos(t, p);
        if !can_advance(t, q) {
            Parsed::Ended
        } else if !(advanced_token(t, q).kind is LCurly) {
            Parsed::Syntax(advanced_token(t, q))
        } else if next_pos(t, q) <= p {
            Parsed::Stuck
        } else {
            match block(t, next_pos(t, q)) {
                Parsed::Done(else_body, r) => node_at(
                    t,
                    r,
                    Expr::Conditional { predicate: Box::new(predicate), body, else_body },
                ),
                Parsed::Syntax(tok) => Parsed::Syntax(tok),
                Parsed::Stuck => Parsed::Stuck,
                Parsed::Ended => Parsed::Ended,
            }
        }
    } else {
        node_at(
            t,
            p,
            Expr::Conditional { predicate: Box::new(predicate), body, else_body: Seq::empty() },
        )
    }
}

/// `if <predicate> { <body> } [else { <body> }]`, or what binds tighter.
pub open spec fn conditional(t: Seq<TokenView>, p: nat) -> Parsed<Tree>
    decreases t.len() - p, 29int,
{
    if p >= t.len() {
        Parsed::Ended
    } else if kind_at(t, p) is If {
        match expression(t, p + 1) {
            Parsed::Done(predicate, q) => if !within(t, p, q) {
                Parsed::Stuck
            } else if !can_advance(t, q) {
                Parsed::Ended
            } else if !(advanced_token(t, q).kind is LCurly) {
                Parsed::Syntax(advanced_token(t, q))
            } else if next_pos(t, q) <= p {
                Parsed::Stuck
            } else {
                match block(t, next_pos(t, q)) {
                    Parsed::Done(body, r) => if p < r <= t.len() {
                        else_part(t, r, predicate, body)
                    } else {
                        Parsed::Stuck
                    },
                    Parsed::Syntax(tok) => Parsed::Syntax(tok),
                    Parsed::Stuck => Parsed::Stuck,
                    Parsed::Ended => Parsed::Ended,
                }
            },
            Parsed::Syntax(tok) => Parsed::Syntax(tok),
            Parsed::Stuck => Parsed::Stuck,
            Parsed::Ended => Parsed::Ended,
        }
    } else {
        assignment(t, p)
    }
}

/// `<left> = <right> = ...`, grouping to the left, or what binds tighter.
pub open spec fn assignment(t: Seq<TokenView>, p: nat) -> Parsed<Tree>
    decreases t.len() - p, 27int,
{
    match binary(t, p, Level::Comparison) {
        Parsed::Done(left, q) => if within(t, p, q) {
            assignments(t, q, left)
        } else {
            Parsed::Stuck
        },
        Parsed::Syntax(tok) => Parsed::Syntax(tok),
        Parsed::Stuck => Parsed::Stuck,
        Parsed::Ended => Parsed::Ended,
    }
}

/// Further `= <right>` parts after `left`.
pub open spec fn assignments(t: Seq<TokenView>, p: nat, left: Tree) -> Parsed<Tree>
    decreases t.len() - p, 26int,
{
    if p >= t.len() {
        Parsed::Ended
    } else if kind_at(t, p) is Equal {
        match binary(t, p + 1, Level::Comparison) {
            Parsed::Done(right, q) => if p < q <= t.len() {
                match node_at(
                    t,
                    q,
                    Expr::Assignment { left: Box::new(left), right: Box::new(right) },
                ) {
                    Parsed::Done(node, q2) => if q2 == q {
                        assignments(t, q, node)
                    } else {
                        Parsed::Stuck
                    },
                    other => other,
                }
            } else {
                Parsed::Stuck
            },
            Parsed::Syntax(tok) => Parsed::Syntax(tok),
            Parsed::Stuck => Parsed::Stuck,
            Parsed::Ended => Parsed::Ended,
        }
    } else {
        Parsed::Done(left, p)
    }
}

/// Left-grouping chains of the operators of `level`, or what binds tighter.
pub open spec fn binary(t: Seq<TokenView>, p: nat, level: Level) -> Parsed<Tree>
    decreases t.len() - p, match level {
        Level::Comparison => 25int,
        Level::Additive => 23int,
        Level::Multiplicative => 21int,
    },
{
    let operand = match level {
        Level::Comparison => binary(t, p, Level::Additive),
        Level::Additive => binary(t, p, Level::Multiplicative),
        Level::Multiplicative => unary(t, p),
    };
    match operand {
        Parsed::Done(left, q) => if within(t, p, q) {
            binary_rest(t, q, level, left)
        } else {
            Parsed::Stuck
        },
        Parsed::Syntax(tok) => Parsed::Syntax(tok),
        Parsed::Stuck => Parsed::Stuck,
        Parsed::Ended => Parsed::Ended,
    }
}

/// Further `<operator> <right>` parts of `level` after `left`.
pub open spec fn binary_rest(t: Seq<TokenView>, p: nat, level: Level, left: Tree) -> Parsed<Tree>
    decreases t.len() - p, match level {
        Level::Comparison => 24int,
        Level::Additive => 22int,
        Level::Multiplicative => 20int,
    },
{
    if p >= t.len() {
        Parsed::Ended
    } else {
        match level_operator(level, kind_at(t, p)) {
            Some(operator) => {
                let right = match level {
                    Level::Comparison => binary(t, p + 1, Level::Additive),
                    Level::Additive => binary(t, p + 1, Level::Multiplicative),
                    Level::Multiplicative => unary(t, p + 1),
                };
                match right {
                    Parsed::Done(right, q) => if p < q <= t.len() {
                        match node_at(
                            t,
                            q,
                            Expr::Binary { left: Box::new(left), operator, right: Box::new(right) },
                        ) {
                            Parsed::Done(node, q2) => if q2 == q {
                                binary_rest(t, q, level, node)
                            } else {
                                Parsed::Stuck
                            },
                            other => other,
                        }
                    } else {
                        Parsed::Stuck
                    },
                    Parsed::Syntax(tok) => Parsed::Syntax(tok),
                    Parsed::Stuck => Parsed::Stuck,
                    Parsed::Ended => Parsed::Ended,
                }
            },
            None => Parsed::Done(left, p),
        }
    }
}

/// `- <right>`, or what binds tighter.
pub open spec fn unary(t: Seq<TokenView>, p: nat) -> Parsed<Tree>
    decreases t.len() - p, 19int,
{
    if p >= t.len() {
        Parsed::Ended
    } else if kind_at(t, p) is Minus {
        match unary(t, p + 1) {
            Parsed::Done(right, q) => node_at(
                t,
                q,
                Expr::Unary { operator: Operator::Minus, right: Box::new(right) },
            ),
            Parsed::Syntax(tok) => Parsed::Syntax(tok),
            Parsed::Stuck => Parsed::Stuck,
            Parsed::Ended => Parsed::Ended,
        }
    } else {
        extern_decl(t, p)
    }
}

/// The types of an extern declaration, after its `<`, up to and including `>`.
pub open spec fn extern_types(t: Seq<TokenView>, p: nat) -> Parsed<Seq<Type>>
    decreases t.len() - p, 17int,
{
    if !can_advance(t, p) {
        Parsed::Ended
    } else {
        let tok = advanced_token(t, p);
        let q = next_pos(t, p);
        match tok.kind {
            TokenKindOf::Identifier(name) => match type_named(name) {
                Some(typ) => if q <= p {
                    Parsed::Stuck
                } else {
                    match extern_types(t, q) {
                        Parsed::Done(rest, r) => Parsed::Done(seq![typ] + rest, r),
                        other => other,
                    }
                },
                None => Parsed::Syntax(tok),
            },
            TokenKindOf::Comma => if q <= p {
                Parsed::Stuck
            } else {
                extern_types(t, q)
            },
            TokenKindOf::Greater => Parsed::Done(Seq::empty(), q),
            _ => Parsed::Syntax(tok),
        }
    }
}

/// The rest of an extern declaration after its types:
/// `( "<name>" )`, completing the declaration.
pub open spec fn extern_name(t: Seq<TokenView>, p: nat, types: Seq<Type>) -> Parsed<Tree> {
    if !can_advance(t, p) {
        Parsed::Ended
    } else if !(advanced_token(t, p).kind is LeftParen) {
        Parsed::Syntax(advanced_token(t, p))
    } else {
        let q = next_pos(t, p);
        if !can_advance(t, q) {
            Parsed::Ended
        } else {
            match advanced_token(t, q).kind {
                TokenKindOf::String(name) => {
                    let r = next_pos(t, q);
                    if !can_advance(t, r) {
                        Parsed::Ended
                    } else if !(advanced_token(t, r).kind is RightParen) {
                        Parsed::Syntax(advanced_token(t, r))
                    } else if types.len() == 0 {
                        Parsed::Syntax(advanced_token(t, r))
                    } else {
                        node_at(
                            t,
                            next_pos(t, r),
                            Expr::Extern {
                                types: types.drop_last(),
                                return_type: types.last(),
                                name,
                            },
                        )
                    }
                },
                _ => Parsed::Syntax(advanced_token(t, q)),
            }
        }
    }
}

/// `extern <types, return type> ("<name>")`, or what binds tighter.
pub open spec fn extern_decl(t: Seq<TokenView>, p: nat) -> Parsed<Tree>
    decreases t.len() - p, 18int,
{
    if p >= t.len() {
        Parsed::Ended
    } else if kind_at(t, p) is Extern {
        let q = p + 1;
        if !can_advance(t, q) {
            Parsed::Ended
        } else if !(advanced_token(t, q).kind is Less) {
            Parsed::Syntax(advanced_token(t, q))
        } else if next_pos(t, q) <= p {
            Parsed::Stuck
        } else {
            match extern_types(t, next_pos(t, q)) {
                Parsed::Done(types, r) => extern_name(t, r, types),
                Parsed::Syntax(tok) => Parsed::Syntax(tok),
                Parsed::Stuck => Parsed::Stuck,
                Parsed::Ended => Parsed::Ended,
            }
        }
    } else {
        func_decl(t, p)
    }
}

/// A parameter list after its `(`, up to and including `)`.
pub open spec fn params(t: Seq<TokenView>, p: nat) -> Params
    decreases t.len() - p,
{
    if !can_advance(t, p) {
        Params::Ended
    } else {
        let tok = advanced_token(t, p);
        let q = next_pos(t, p);
        match tok.kind {
            TokenKindOf::Identifier(name) => if !can_advance(t, q) {
                Params::Ended
            } else if !(advanced_token(t, q).kind is Colon) {
                Params::Back
            } else {
                let r = next_pos(t, q);
                if !can_advance(t, r) {
                    Params::Ended
                } else {
                    let typ_tok = advanced_token(t, r);
                    let s = next_pos(t, r);
                    match typ_tok.kind {
                        TokenKindOf::Identifier(type_label) => match type_named(type_label) {
                            Some(typ) => if s <= p {
                                Params::Stuck
                            } else {
                                match params(t, s) {
                                    Params::Done(rest, e) => Params::Done(
                                        seq![ParamOf { typ, name }] + rest,
                                        e,
                                    ),
                                    other => other,
                                }
                            },
                            None => Params::Syntax(typ_tok),
                        },
                        _ => Params::Syntax(typ_tok),
                    }
                }
            },
            TokenKindOf::Comma => if q <= p {
                Params::Stuck
            } else {
                params(t, q)
            },
            TokenKindOf::RightParen => Params::Done(Seq::empty(), q),
            _ => Params::Back,
        }
    }
}

/// The rest of a function declaration after its parameters:
/// `: <return type> => { <body> }`.
pub open spec fn func_body(
    t: Seq<TokenView>,
    p: nat,
    params: Seq<ParamView>,
) -> Parsed<Tree>
    decreases t.len() - p, 33int,
{
    if !can_advance(t, p) {
        Parsed::Ended
    } else if !(advanced_token(t, p).kind is Colon) {
        Parsed::Syntax(advanced_token(t, p))
    } else {
        let q = next_pos(t, p);
        if !can_advance(t, q) {
            Parsed::Ended
        } else {
            let typ_tok = advanced_token(t, q);
            let r = next_pos(t, q);
            match typ_tok.kind {
                TokenKindOf::Identifier(name) => match return_type_named(name) {
                    Some(return_type) => if !can_advance(t, r) {
                        Parsed::Ended
                    } else if !(advanced_token(t, r).kind is Arrow) {
                        Parsed::Syntax(advanced_token(t, r))
                    } else {
                        let s = next_pos(t, r);
                        if !can_advance(t, s) {
                            Parsed::Ended
                        } else if !(advanced_token(t, s).kind is LCurly) {
                            Parsed::Syntax(advanced_token(t, s))
                        } else if next_pos(t, s) < p {
                            Parsed::Stuck
                        } else {
                            match block(t, next_pos(t, s)) {
                                Parsed::Done(body, e) => node_at(
                                    t,
                                    e,
                                    Expr::FuncDecl { params, body, return_type },
                                ),
                                Parsed::Syntax(tok) => Parsed::Syntax(tok),
                                Parsed::Stuck => Parsed::Stuck,
                                Parsed::Ended => Parsed::Ended,
                            }
                        }
                    },
                    None => Parsed::Syntax(typ_tok),
                },
                _ => Parsed::Syntax(typ_tok),
            }
        }
    }
}

/// `(<name>: <type>, ...): <type> => { <body> }`, or what binds tighter.
pub open spec fn func_decl(t: Seq<TokenView>, p: nat) -> Parsed<Tree>
    decreases t.len() - p, 16int,
{
    if p >= t.len() {
        Parsed::Ended
    } else if kind_at(t, p) is LeftParen {
        match params(t, p + 1) {
            Params::Done(ps, q) => if p < q <= t.len() {
                func_body(t, q, ps)
            } else {
                Parsed::Stuck
            },
            Params::Back => func_call(t, p),
            Params::Syntax(tok) => Parsed::Syntax(tok),
            Params::Stuck => Parsed::Stuck,
            Params::Ended => Parsed::Ended,
        }
    } else {
        func_call(t, p)
    }
}

/// Call suffixes `(<args>)` after `callee`.
pub open spec fn calls(t: Seq<TokenView>, p: nat, callee: Tree) -> Parsed<Tree>
    decreases t.len() - p, 14int,
{
    if p >= t.len() {
        Parsed::Ended
    } else if kind_at(t, p) is LeftParen {
        if callee.expr is Identifier {
            match arguments(t, p + 1) {
                Parsed::Done(args, q) => if p < q <= t.len() {
                    match node_at(t, q, Expr::FuncCall { calee: Box::new(callee), args }) {
                        Parsed::Done(node, q2) => if q2 == q {
                            calls(t, q, node)
                        } else {
                            Parsed::Stuck
                        },
                        other => other,
                    }
                } else {
                    Parsed::Stuck
                },
                Parsed::Syntax(tok) => Parsed::Syntax(tok),
                Parsed::Stuck => Parsed::Stuck,
                Parsed::Ended => Parsed::Ended,
            }
        } else {
            Parsed::Syntax(t[p as int])
        }
    } else {
        Parsed::Done(callee, p)
    }
}

/// A callee followed by call suffixes, or what binds tighter.
pub open spec fn func_call(t: Seq<TokenView>, p: nat) -> Parsed<Tree>
    decreases t.len() - p, 15int,
{
    match load(t, p) {
        Parsed::Done(callee, q) => if within(t, p, q) {
            calls(t, q, callee)
        } else {
            Parsed::Stuck
        },
        Parsed::Syntax(tok) => Parsed::Syntax(tok),
        Parsed::Stuck => Parsed::Stuck,
        Parsed::Ended => Parsed::Ended,
    }
}

/// `load("<name>")`, or a primary expression.
pub open spec fn load(t: Seq<TokenView>, p: nat) -> Parsed<Tree>
    decreases t.len() - p, 13int,
{
    if p >= t.len() {
        Parsed::Ended
    } else if kind_at(t, p) is Load {
        let q = p + 1;
        if !can_advance(t, q) {
            Parsed::Ended
        } else if !(advanced_token(t, q).kind is LeftParen) {
            Parsed::Syntax(advanced_token(t, q))
        } else {
            let r = next_pos(t, q);
            if !can_advance(t, r) {
                Parsed::Ended
            } else {
                match advanced_token(t, r).kind {
                    TokenKindOf::String(name) => {
                        let s = next_pos(t, r);
                        if !can_advance(t, s) {
                            Parsed::Ended
                        } else if !(advanced_token(t, s).kind is RightParen) {
                            Parsed::Syntax(advanced_token(t, s))
                        } else {
                            node_at(t, next_pos(t, s), Expr::Load(name))
                        }
                    },
                    _ => Parsed::Syntax(advanced_token(t, r)),
                }
            }
        }
    } else {
        primary(t, p)
    }
}

/// A literal, an identifier, `break`, or a parenthesized expression.
pub open spec fn primary(t: Seq<TokenView>, p: nat) -> Parsed<Tree>
    decreases t.len() - p, 12int,
{
    if !can_advance(t, p) {
        Parsed::Ended
    } else {
        let tok = advanced_token(t, p);
        let q = next_pos(t, p);
        match tok.kind {
            TokenKindOf::Numeric(v) => node_at(t, q, Expr::Numeric(v)),
            TokenKindOf::LeftParen => if q <= p {
                Parsed::Stuck
            } else {
                match expression(t, q) {
                    Parsed::Done(inner, r) => if !within(t, q, r) {
                        Parsed::Stuck
                    } else if !can_advance(t, r) {
                        Parsed::Ended
                    } else if !(advanced_token(t, r).kind is RightParen) {
                        Parsed::Syntax(advanced_token(t, r))
                    } else {
                        node_at(t, next_pos(t, r), Expr::Grouping(Box::new(inner)))
                    },
                    Parsed::Syntax(e) => Parsed::Syntax(e),
                    Parsed::Stuck => Parsed::Stuck,
                    Parsed::Ended => Parsed::Ended,
                }
            },
            TokenKindOf::Identifier(name) => node_at(t, q, Expr::Identifier(name)),
            TokenKindOf::String(s) => node_at(t, q, Expr::String(s)),
            TokenKindOf::True => node_at(t, q, Expr::Bool(true)),
            TokenKindOf::False => node_at(t, q, Expr::Bool(false)),
            TokenKindOf::Break => node_at(t, q, Expr::Break),
            _ => Parsed::Syntax(tok),
        }
    }
}


/// A `(` that does not open a parameter list (one whose tokens reach something
/// other than a name, a comma or `)` before any type, or a name not followed by
/// `:`) is parsed from that `(` as a call or a grouping would be.
pub proof fn lemma_func_decl_falls_back_to_call(t: Seq<TokenView>, p: nat)
    requires
        p < t.len(),
        kind_at(t, p) is LeftParen,
        params(t, p + 1) is Back,
    ensures
        func_decl(t, p) == func_call(t, p),
{
}

/// A program that parses ends at an `Eof` token.
pub proof fn lemma_program_ends_at_eof(t: Seq<TokenView>, p: nat)
    ensures
        program(t, p) matches Parsed::Done(_, q) ==> q < t.len() && kind_at(t, q) is Eof,
    decreases t.len() - p,
{
    if p < t.len() && !(kind_at(t, p) is Eof) {
        if let Parsed::Done(_, q) = expression(t, p) {
            if p < q <= t.len() {
                lemma_program_ends_at_eof(t, q);
            }
        }
    }
}

/// Parsing again from where a successful parse stopped gives an empty program,
/// and stays there.
pub proof fn lemma_parse_again_is_empty(t: Seq<TokenView>, p: nat)
    requires
        program(t, p) is Done,
    ensures
        program(t, program(t, p)->1) == Parsed::<Seq<Tree>>::Done(Seq::empty(), program(t, p)->1),
{
    lemma_program_ends_at_eof(t, p);
}


// ---------------------------------------------------------------------------
// Parsing tokens that end with `Eof` never reads past them.
// ---------------------------------------------------------------------------

/// `t` ends with its only `Eof`, and `p` is a position parsing can read from:
/// a token, and not an `Eof` at the very start.
pub open spec fn readable_from(t: Seq<TokenView>, p: nat) -> bool {
    &&& ends_with_eof(t)
    &&& p < t.len()
    &&& (p >= 1 || !(t[p as int].kind is Eof))
}

/// The outcome `r` stays within `t`: parsing did not read past the tokens, and a
/// result ends at a position after the first token and not past the last.
pub open spec fn stays_within<T>(t: Seq<TokenView>, r: Parsed<T>) -> bool {
    &&& !(r is Ended)
    &&& (r matches Parsed::Done(_, q) ==> 1 <= q < t.len())
}

/// [`stays_within`] for a parameter list.
pub open spec fn params_stay_within(t: Seq<TokenView>, r: Params) -> bool {
    &&& !(r is Ended)
    &&& (r matches Params::Done(_, q) ==> 1 <= q < t.len())
}

proof fn lemma_eof_only_last(t: Seq<TokenView>)
    requires
        ends_with_eof(t),
    ensures
        forall|i: int| 0 <= i < t.len() - 1 ==> !(#[trigger] t[i].kind is Eof),
        t[t.len() - 1].kind is Eof,
{
    assert forall|i: int| 0 <= i < t.len() - 1 implies !(#[trigger] t[i].kind is Eof) by {
        assert(t.drop_last()[i] == t[i]);
    }
}

proof fn lemma_program_stays(t: Seq<TokenView>, p: nat)
    requires
        ends_with_eof(t),
        p < t.len(),
    ensures
        !(program(t, p) is Ended),
        program(t, p) matches Parsed::Done(_, q) ==> q < t.len(),
    decreases t.len() - p,
{
    lemma_eof_only_last(t);
    if !(kind_at(t, p) is Eof) {
        lemma_expression_stays(t, p);
        if let Parsed::Done(_, q) = expression(t, p) {
            if p < q <= t.len() {
                lemma_program_stays(t, q);
            }
        }
    }
}

proof fn lemma_block_stays(t: Seq<TokenView>, p: nat)
    requires
        readable_from(t, p),
    ensures
        stays_within(t, block(t, p)),
    decreases t.len() - p, 32int,
{
    lemma_eof_only_last(t);
    if !(kind_at(t, p) is RCurly) {
        lemma_expression_stays(t, p);
        if let Parsed::Done(_, q) = expression(t, p) {
            if p < q <= t.len() {
                lemma_block_stays(t, q);
            }
        }
    }
}

proof fn lemma_arguments_stays(t: Seq<TokenView>, p: nat)
    requires
        readable_from(t, p),
    ensures
        stays_within(t, arguments(t, p)),
    decreases t.len() - p, 32int,
{
    lemma_eof_only_last(t);
    if !(kind_at(t, p) is RightParen) {
        lemma_expression_stays(t, p);
        if let Parsed::Done(_, q) = expression(t, p) {
            if within(t, p, q) && q < t.len() && !(kind_at(t, q) is RightParen) && can_advance(
                t,
                q,
            ) && advanced_token(t, q).kind is Comma && next_pos(t, q) > p {
                lemma_arguments_stays(t, next_pos(t, q));
            }
        }
    }
}

proof fn lemma_expression_stays(t: Seq<TokenView>, p: nat)
    requires
        readable_from(t, p),
    ensures
        stays_within(t, expression(t, p)),
    decreases t.len() - p, 31int,
{
    lemma_while_loop_stays(t, p);
}

proof fn lemma_while_loop_stays(t: Seq<TokenView>, p: nat)
    requires
        readable_from(t, p),
    ensures
        stays_within(t, while_loop(t, p)),
    decreases t.len() - p, 30int,
{
    lemma_eof_only_last(t);
    if kind_at(t, p) is While {
        lemma_expression_stays(t, p + 1);
        if let Parsed::Done(_, q) = expression(t, p + 1) {
            if within(t, p, q) && advanced_token(t, q).kind is LCurly && next_pos(t, q) > p {
                lemma_block_stays(t, next_pos(t, q));
            }
        }
    } else {
        lemma_conditional_stays(t, p);
    }
}

proof fn lemma_else_part_stays(t: Seq<TokenView>, p: nat, predicate: Tree, body: Seq<Tree>)
    requires
        readable_from(t, p),
        p >= 1,
    ensures
        stays_within(t, else_part(t, p, predicate, body)),
    decreases t.len() - p, 28int,
{
    lemma_eof_only_last(t);
    if kind_at(t, p) is Else {
        let q = next_pos(t, p);
        if advanced_token(t, q).kind is LCurly && next_pos(t, q) > p {
            lemma_block_stays(t, next_pos(t, q));
        }
    }
}

proof fn lemma_conditional_stays(t: Seq<TokenView>, p: nat)
    requires
        readable_from(t, p),
    ensures
        stays_within(t, conditional(t, p)),
    decreases t.len() - p, 29int,
{
    lemma_eof_only_last(t);
    if kind_at(t, p) is If {
        lemma_expression_stays(t, p + 1);
        if let Parsed::Done(predicate, q) = expression(t, p + 1) {
            if within(t, p, q) && advanced_token(t, q).kind is LCurly && next_pos(t, q) > p {
                lemma_block_stays(t, next_pos(t, q));
                if let Parsed::Done(body, r) = block(t, next_pos(t, q)) {
                    if p < r <= t.len() {
                        lemma_else_part_stays(t, r, predicate, body);
                    }
                }
            }
        }
    } else {
        lemma_assignment_stays(t, p);
    }
}

proof fn lemma_assignment_stays(t: Seq<TokenView>, p: nat)
    requires
        readable_from(t, p),
    ensures
        stays_within(t, assignment(t, p)),
    decreases t.len() - p, 27int,
{
    lemma_binary_stays(t, p, Level::Comparison);
    if let Parsed::Done(left, q) = binary(t, p, Level::Comparison) {
        if within(t, p, q) {
            lemma_assignments_stays(t, q, left);
        }
    }
}

proof fn lemma_assignments_stays(t: Seq<TokenView>, p: nat, left: Tree)
    requires
        readable_from(t, p),
        p >= 1,
    ensures
        stays_within(t, assignments(t, p, left)),
    decreases t.len() - p, 26int,
{
    lemma_eof_only_last(t);
    if kind_at(t, p) is Equal {
        lemma_binary_stays(t, p + 1, Level::Comparison);
        if let Parsed::Done(right, q) = binary(t, p + 1, Level::Comparison) {
            if p < q <= t.len() {
                lemma_assignments_stays(
                    t,
                    q,
                    Tree {
                        expr: Expr::Assignment { left: Box::new(left), right: Box::new(right) },
                        span: t[q - 1].span,
                    },
                );
            }
        }
    }
}

proof fn lemma_binary_stays(t: Seq<TokenView>, p: nat, level: Level)
    requires
        readable_from(t, p),
    ensures
        stays_within(t, binary(t, p, level)),
    decreases t.len() - p, match level {
        Level::Comparison => 25int,
        Level::Additive => 23int,
        Level::Multiplicative => 21int,
    },
{
    match level {
        Level::Comparison => lemma_binary_stays(t, p, Level::Additive),
        Level::Additive => lemma_binary_stays(t, p, Level::Multiplicative),
        Level::Multiplicative => lemma_unary_stays(t, p),
    }
    let operand = match level {
        Level::Comparison => binary(t, p, Level::Additive),
        Level::Additive => binary(t, p, Level::Multiplicative),
        Level::Multiplicative => unary(t, p),
    };
    if let Parsed::Done(left, q) = operand {
        if within(t, p, q) {
            lemma_binary_rest_stays(t, q, level, left);
        }
    }
}

proof fn lemma_binary_rest_stays(t: Seq<TokenView>, p: nat, level: Level, left: Tree)
    requires
        readable_from(t, p),
        p >= 1,
    ensures
        stays_within(t, binary_rest(t, p, level, left)),
    decreases t.len() - p, match level {
        Level::Comparison => 24int,
        Level::Additive => 22int,
        Level::Multiplicative => 20int,
    },
{
    lemma_eof_only_last(t);
    if let Some(operator) = level_operator(level, kind_at(t, p)) {
        assert(!(kind_at(t, p) is Eof));
        match level {
            Level::Comparison => lemma_binary_stays(t, p + 1, Level::Additive),
            Level::Additive => lemma_binary_stays(t, p + 1, Level::Multiplicative),
            Level::Multiplicative => lemma_unary_stays(t, p + 1),
        }
        let right = match level {
            Level::Comparison => binary(t, p + 1, Level::Additive),
            Level::Additive => binary(t, p + 1, Level::Multiplicative),
            Level::Multiplicative => unary(t, p + 1),
        };
        if let Parsed::Done(r, q) = right {
            if p < q <= t.len() {
                lemma_binary_rest_stays(
                    t,
                    q,
                    level,
                    Tree {
                        expr: Expr::Binary { left: Box::new(left), operator, right: Box::new(r) },
                        span: t[q - 1].span,
                    },
                );
            }
        }
    }
}

proof fn lemma_unary_stays(t: Seq<TokenView>, p: nat)
    requires
        readable_from(t, p),
    ensures
        stays_within(t, unary(t, p)),
    decreases t.len() - p, 19int,
{
    lemma_eof_only_last(t);
    if kind_at(t, p) is Minus {
        lemma_unary_stays(t, p + 1);
    } else {
        lemma_extern_decl_stays(t, p);
    }
}

proof fn lemma_extern_types_stays(t: Seq<TokenView>, p: nat)
    requires
        readable_from(t, p),
    ensures
        stays_within(t, extern_types(t, p)),
    decreases t.len() - p,
{
    lemma_eof_only_last(t);
    let q = next_pos(t, p);
    if q > p {
        lemma_extern_types_stays(t, q);
    }
}

proof fn lemma_extern_name_stays(t: Seq<TokenView>, p: nat, types: Seq<Type>)
    requires
        readable_from(t, p),
    ensures
        stays_within(t, extern_name(t, p, types)),
{
    lemma_eof_only_last(t);
}

proof fn lemma_extern_decl_stays(t: Seq<TokenView>, p: nat)
    requires
        readable_from(t, p),
    ensures
        stays_within(t, extern_decl(t, p)),
    decreases t.len() - p, 18int,
{
    lemma_eof_only_last(t);
    if kind_at(t, p) is Extern {
        let q = p + 1;
        if advanced_token(t, q).kind is Less && next_pos(t, q) > p {
            lemma_extern_types_stays(t, next_pos(t, q));
            if let Parsed::Done(types, r) = extern_types(t, next_pos(t, q)) {
                lemma_extern_name_stays(t, r, types);
            }
        }
    } else {
        lemma_func_decl_stays(t, p);
    }
}

proof fn lemma_params_stays(t: Seq<TokenView>, p: nat)
    requires
        readable_from(t, p),
    ensures
        params_stay_within(t, params(t, p)),
    decreases t.len() - p,
{
    lemma_eof_only_last(t);
    let q = next_pos(t, p);
    let r = next_pos(t, q);
    let s = next_pos(t, r);
    if s > p {
        lemma_params_stays(t, s);
    }
    if q > p {
        lemma_params_stays(t, q);
    }
}

proof fn lemma_func_body_stays(t: Seq<TokenView>, p: nat, params: Seq<ParamView>)
    requires
        readable_from(t, p),
    ensures
        stays_within(t, func_body(t, p, params)),
    decreases t.len() - p, 33int,
{
    lemma_eof_only_last(t);
    let q = next_pos(t, p);
    let r = next_pos(t, q);
    let s = next_pos(t, r);
    if next_pos(t, s) >= p {
        lemma_block_stays(t, next_pos(t, s));
    }
}

proof fn lemma_func_decl_stays(t: Seq<TokenView>, p: nat)
    requires
        readable_from(t, p),
    ensures
        stays_within(t, func_decl(t, p)),
    decreases t.len() - p, 16int,
{
    lemma_eof_only_last(t);
    if kind_at(t, p) is LeftParen {
        lemma_params_stays(t, p + 1);
        match params(t, p + 1) {
            Params::Done(ps, q) => if p < q <= t.len() {
                lemma_func_body_stays(t, q, ps);
            },
            Params::Back => lemma_func_call_stays(t, p),
            _ => {},
        }
    } else {
        lemma_func_call_stays(t, p);
    }
}

proof fn lemma_calls_stays(t: Seq<TokenView>, p: nat, callee: Tree)
    requires
        readable_from(t, p),
        p >= 1,
    ensures
        stays_within(t, calls(t, p, callee)),
    decreases t.len() - p, 14int,
{
    lemma_eof_only_last(t);
    if kind_at(t, p) is LeftParen && callee.expr is Identifier {
        lemma_arguments_stays(t, p + 1);
        if let Parsed::Done(args, q) = arguments(t, p + 1) {
            if p < q <= t.len() {
                lemma_calls_stays(
                    t,
                    q,
                    Tree {
                        expr: Expr::FuncCall { calee: Box::new(callee), args },
                        span: t[q - 1].span,
                    },
                );
            }
        }
    }
}

proof fn lemma_func_call_stays(t: Seq<TokenView>, p: nat)
    requires
        readable_from(t, p),
    ensures
        stays_within(t, func_call(t, p)),
    decreases t.len() - p, 15int,
{
    lemma_load_stays(t, p);
    if let Parsed::Done(callee, q) = load(t, p) {
        if within(t, p, q) {
            lemma_calls_stays(t, q, callee);
        }
    }
}

proof fn lemma_load_stays(t: Seq<TokenView>, p: nat)
    requires
        readable_from(t, p),
    ensures
        stays_within(t, load(t, p)),
    decreases t.len() - p, 13int,
{
    lemma_eof_only_last(t);
    if !(kind_at(t, p) is Load) {
        lemma_primary_stays(t, p);
    }
}

proof fn lemma_primary_stays(t: Seq<TokenView>, p: nat)
    requires
        readable_from(t, p),
    ensures
        stays_within(t, primary(t, p)),
    decreases t.len() - p, 12int,
{
    lemma_eof_only_last(t);
    let q = next_pos(t, p);
    if advanced_token(t, p).kind is LeftParen && q > p {
        lemma_expression_stays(t, q);
    }
}

/// Parsing tokens that end with their only `Eof`, as the tokenizer gives them,
/// never reads past them: where it does not come to an end, it loops. A
/// program that parses ends at the `Eof`.
pub proof fn lemma_parse_stays_within(t: Seq<TokenView>, p: nat)
    requires
        ends_with_eof(t),
        p < t.len(),
    ensures
        !(program(t, p) is Ended),
        program(t, p) matches Parsed::Done(_, q) ==> q == t.len() - 1,
{
    lemma_program_stays(t, p);
    lemma_program_ends_at_eof(t, p);
    lemma_eof_only_last(t);
}

/// Parsing the tokens of any source that tokenizes never reads past them.
pub proof fn lemma_tokenized_parse_stays_within(src: Seq<char>)
    ensures
        tokenize_spec(src) matches Lexed::Tokens(ts) ==> !(program(ts, 0) is Ended),
{
    lemma_tokens_end_with_eof(src);
    if let Lexed::Tokens(ts) = tokenize_spec(src) {
        lemma_parse_stays_within(ts, 0);
    }
}

} // verus!
