//! Tokens produced by the tokenizer and consumed by the parser.

use vstd::prelude::*;
use vstd::string::StringExecFns;

use crate::parser::Span;
use crate::text::{chars_of, push_char, string_of};

verus! {

/// The kind of a token. The type parameter is the representation of the text a
/// token carries: `String` for executable tokens ([`TokenKind`]) and `Seq<char>`
/// for their mathematical model ([`TokenKindView`]).
///
/// A numeric literal keeps the characters it was written with; turning them into
/// a number is left to the code generator.
#[derive(Debug, PartialEq)]
pub enum TokenKindOf<S> {
    DoubleEqual,
    Else,
    Less,
    LessOrEqual,
    Comma,
    Break,
    True,
    False,
    NotEqual,
    Percent,
    LeftParen,
    LCurly,
    RCurly,
    While,
    If,
    RightParen,
    Slash,
    Plus,
    Minus,
    Asterisk,
    Equal,
    Arrow,
    Exclamation,
    Or,
    And,
    Greater,
    GreaterOrEqual,
    Colon,
    String(S),
    Identifier(S),
    Numeric(S),
    Load,
    Extern,
    Eof,
}

pub type TokenKind = TokenKindOf<String>;

pub type TokenKindView = TokenKindOf<Seq<char>>;

/// A token together with the position at which the tokenizer produced it.
#[derive(Debug, PartialEq)]
pub struct TokenOf<S> {
    pub kind: TokenKindOf<S>,
    pub span: Span,
}

pub type Token = TokenOf<String>;

pub type TokenView = TokenOf<Seq<char>>;

impl View for TokenKindOf<String> {
    type V = TokenKindView;

    open spec fn view(&self) -> TokenKindView {
        match self {
            TokenKindOf::DoubleEqual => TokenKindOf::DoubleEqual,
            TokenKindOf::Else => TokenKindOf::Else,
            TokenKindOf::Less => TokenKindOf::Less,
            TokenKindOf::LessOrEqual => TokenKindOf::LessOrEqual,
            TokenKindOf::Comma => TokenKindOf::Comma,
            TokenKindOf::Break => TokenKindOf::Break,
            TokenKindOf::True => TokenKindOf::True,
            TokenKindOf::False => TokenKindOf::False,
            TokenKindOf::NotEqual => TokenKindOf::NotEqual,
            TokenKindOf::Percent => TokenKindOf::Percent,
            TokenKindOf::LeftParen => TokenKindOf::LeftParen,
            TokenKindOf::LCurly => TokenKindOf::LCurly,
            TokenKindOf::RCurly => TokenKindOf::RCurly,
            TokenKindOf::While => TokenKindOf::While,
            TokenKindOf::If => TokenKindOf::If,
            TokenKindOf::RightParen => TokenKindOf::RightParen,
            TokenKindOf::Slash => TokenKindOf::Slash,
            TokenKindOf::Plus => TokenKindOf::Plus,
            TokenKindOf::Minus => TokenKindOf::Minus,
            TokenKindOf::Asterisk => TokenKindOf::Asterisk,
            TokenKindOf::Equal => TokenKindOf::Equal,
            TokenKindOf::Arrow => TokenKindOf::Arrow,
            TokenKindOf::Exclamation => TokenKindOf::Exclamation,
            TokenKindOf::Or => TokenKindOf::Or,
            TokenKindOf::And => TokenKindOf::And,
            TokenKindOf::Greater => TokenKindOf::Greater,
            TokenKindOf::GreaterOrEqual => TokenKindOf::GreaterOrEqual,
            TokenKindOf::Colon => TokenKindOf::Colon,
            TokenKindOf::String(s) => TokenKindOf::String(s@),
            TokenKindOf::Identifier(s) => TokenKindOf::Identifier(s@),
            TokenKindOf::Numeric(s) => TokenKindOf::Numeric(s@),
            TokenKindOf::Load => TokenKindOf::Load,
            TokenKindOf::Extern => TokenKindOf::Extern,
            TokenKindOf::Eof => TokenKindOf::Eof,
        }
    }
}

impl View for TokenOf<String> {
    type V = TokenView;

    open spec fn view(&self) -> TokenView {
        TokenOf { kind: self.kind@, span: self.span }
    }
}

impl Clone for TokenKindOf<String> {
    fn clone(&self) -> (r: Self)
        ensures
            r == *self,
    {
        match self {
            TokenKindOf::DoubleEqual => TokenKindOf::DoubleEqual,
            TokenKindOf::Else => TokenKindOf::Else,
            TokenKindOf::Less => TokenKindOf::Less,
            TokenKindOf::LessOrEqual => TokenKindOf::LessOrEqual,
            TokenKindOf::Comma => TokenKindOf::Comma,
            TokenKindOf::Break => TokenKindOf::Break,
            TokenKindOf::True => TokenKindOf::True,
            TokenKindOf::False => TokenKindOf::False,
            TokenKindOf::NotEqual => TokenKindOf::NotEqual,
            TokenKindOf::Percent => TokenKindOf::Percent,
            TokenKindOf::LeftParen => TokenKindOf::LeftParen,
            TokenKindOf::LCurly => TokenKindOf::LCurly,
            TokenKindOf::RCurly => TokenKindOf::RCurly,
            TokenKindOf::While => TokenKindOf::While,
            TokenKindOf::If => TokenKindOf::If,
            TokenKindOf::RightParen => TokenKindOf::RightParen,
            TokenKindOf::Slash => TokenKindOf::Slash,
            TokenKindOf::Plus => TokenKindOf::Plus,
            TokenKindOf::Minus => TokenKindOf::Minus,
            TokenKindOf::Asterisk => TokenKindOf::Asterisk,
            TokenKindOf::Equal => TokenKindOf::Equal,
            TokenKindOf::Arrow => TokenKindOf::Arrow,
            TokenKindOf::Exclamation => TokenKindOf::Exclamation,
            TokenKindOf::Or => TokenKindOf::Or,
            TokenKindOf::And => TokenKindOf::And,
            TokenKindOf::Greater => TokenKindOf::Greater,
            TokenKindOf::GreaterOrEqual => TokenKindOf::GreaterOrEqual,
            TokenKindOf::Colon => TokenKindOf::Colon,
            TokenKindOf::String(s) => TokenKindOf::String(s.clone()),
            TokenKindOf::Identifier(s) => TokenKindOf::Identifier(s.clone()),
            TokenKindOf::Numeric(s) => TokenKindOf::Numeric(s.clone()),
            TokenKindOf::Load => TokenKindOf::Load,
            TokenKindOf::Extern => TokenKindOf::Extern,
            TokenKindOf::Eof => TokenKindOf::Eof,
        }
    }
}

impl Clone for TokenOf<String> {
    fn clone(&self) -> (r: Self)
        ensures
            r == *self,
    {
        TokenOf { kind: self.kind.clone(), span: self.span }
    }
}

/// The name under which a token kind is displayed.
pub open spec fn kind_name(k: TokenKindView) -> Seq<char> {
    match k {
        TokenKindOf::NotEqual => "NotEqual"@,
        TokenKindOf::LeftParen => "LeftParen"@,
        TokenKindOf::RightParen => "RightParen"@,
        TokenKindOf::Slash => "Slash"@,
        TokenKindOf::Identifier(_) => "Identifier"@,
        TokenKindOf::Numeric(_) => "F64"@,
        TokenKindOf::Plus => "Plus"@,
        TokenKindOf::Minus => "Minus"@,
        TokenKindOf::Asterisk => "Asterisk"@,
        TokenKindOf::Equal => "Equal"@,
        TokenKindOf::LCurly => "LCurly"@,
        TokenKindOf::RCurly => "RCurly"@,
        TokenKindOf::If => "If"@,
        TokenKindOf::While => "While"@,
        TokenKindOf::True => "True"@,
        TokenKindOf::False => "False"@,
        TokenKindOf::DoubleEqual => "DoubleEqual"@,
        TokenKindOf::Percent => "Percent"@,
        TokenKindOf::Exclamation => "Exclamation"@,
        TokenKindOf::Break => "Break"@,
        TokenKindOf::String(_) => "String"@,
        TokenKindOf::Eof => "Eof"@,
        TokenKindOf::Comma => "Comma"@,
        TokenKindOf::Arrow => "Arrow"@,
        TokenKindOf::Less => "Less"@,
        TokenKindOf::LessOrEqual => "LessOrEqual"@,
        TokenKindOf::Greater => "Greater"@,
        TokenKindOf::GreaterOrEqual => "GreaterOrEqual"@,
        TokenKindOf::Or => "Or"@,
        TokenKindOf::And => "And"@,
        TokenKindOf::Else => "Else"@,
        TokenKindOf::Colon => "Colon"@,
        TokenKindOf::Load => "Load"@,
        TokenKindOf::Extern => "Extern"@,
    }
}

/// The digits of a numeric literal before its first `.`.
pub open spec fn whole_part(s: Seq<char>) -> Seq<char>
    decreases s.len(),
{
    if s.len() == 0 || s[0] == '.' {
        Seq::empty()
    } else {
        seq![s[0]] + whole_part(s.drop_first())
    }
}

/// The digits of a numeric literal after its first `.`, if it has one.
pub open spec fn fraction_part(s: Seq<char>) -> Seq<char>
    decreases s.len(),
{
    if s.len() == 0 {
        Seq::empty()
    } else if s[0] == '.' {
        s.drop_first()
    } else {
        fraction_part(s.drop_first())
    }
}

/// `s` without the zeros it starts with.
pub open spec fn without_leading_zeros(s: Seq<char>) -> Seq<char>
    decreases s.len(),
{
    if s.len() > 0 && s[0] == '0' {
        without_leading_zeros(s.drop_first())
    } else {
        s
    }
}

/// `s` without the zeros it ends with.
pub open spec fn without_trailing_zeros(s: Seq<char>) -> Seq<char>
    decreases s.len(),
{
    if s.len() > 0 && s.last() == '0' {
        without_trailing_zeros(s.drop_last())
    } else {
        s
    }
}

/// A numeric literal in its shortest decimal form: its whole part without
/// leading zeros (`0` where nothing is left), then, where its fraction has a
/// digit other than a trailing zero, a point and the fraction without trailing
/// zeros. `10.0` is `10`, `007.50` is `7.5`, and `0.0` is `0`.
pub open spec fn number_text(s: Seq<char>) -> Seq<char> {
    let whole = without_leading_zeros(whole_part(s));
    let fraction = without_trailing_zeros(fraction_part(s));
    (if whole.len() == 0 {
        seq!['0']
    } else {
        whole
    }) + (if fraction.len() == 0 {
        Seq::empty()
    } else {
        seq!['.'] + fraction
    })
}

/// The shortest decimal form of the numeric literal `s` (see [`number_text`]).
pub fn number_display(s: &str) -> (r: String)
    ensures
        r@ == number_text(s@),
{
    let v = chars_of(s);
    let n = v.len();
    let ghost t = v@;
    let mut k: usize = 0;
    assert(t.subrange(0, n as int) =~= t);
    assert(t.subrange(0, 0) =~= Seq::<char>::empty());
    while k < n && v[k] != '.'
        invariant
            n == t.len(),
            t == v@,
            k <= n,
            forall|j: int| 0 <= j < k ==> t[j] != '.',
            whole_part(t) == t.subrange(0, k as int) + whole_part(t.subrange(k as int, n as int)),
            fraction_part(t) == fraction_part(t.subrange(k as int, n as int)),
        decreases n - k,
    {
        assert(t.subrange(k as int, n as int).drop_first() =~= t.subrange(k + 1, n as int));
        assert(t.subrange(0, k + 1) =~= t.subrange(0, k as int) + seq![t[k as int]]);
        k = k + 1;
    }
    let start: usize = if k < n {
        k + 1
    } else {
        n
    };
    assert(whole_part(t) =~= t.subrange(0, k as int)) by {
        assert(whole_part(t.subrange(k as int, n as int)) =~= Seq::<char>::empty());
    }
    assert(fraction_part(t) =~= t.subrange(start as int, n as int)) by {
        if k < n {
            assert(t.subrange(k as int, n as int).drop_first() =~= t.subrange(start as int, n as int));
        }
    }
    let mut a: usize = 0;
    while a < k && v[a] == '0'
        invariant
            n == t.len(),
            t == v@,
            a <= k <= n,
            without_leading_zeros(t.subrange(0, k as int)) == without_leading_zeros(
                t.subrange(a as int, k as int),
            ),
        decreases k - a,
    {
        assert(t.subrange(a as int, k as int).drop_first() =~= t.subrange(a + 1, k as int));
        a = a + 1;
    }
    let mut b: usize = n;
    while b > start && v[b - 1] == '0'
        invariant
            n == t.len(),
            t == v@,
            start <= b <= n,
            without_trailing_zeros(t.subrange(start as int, n as int)) == without_trailing_zeros(
                t.subrange(start as int, b as int),
            ),
        decreases b - start,
    {
        assert(t.subrange(start as int, b as int).drop_last() =~= t.subrange(
            start as int,
            b - 1,
        ));
        b = b - 1;
    }
    let ghost whole = t.subrange(a as int, k as int);
    let ghost fraction = t.subrange(start as int, b as int);
    assert(without_leading_zeros(whole_part(t)) == whole);
    assert(without_trailing_zeros(fraction_part(t)) == fraction);
    let mut r = String::new();
    if a == k {
        push_char(&mut r, '0');
    } else {
        let mut i: usize = a;
        while i < k
            invariant
                t == v@,
                a <= i <= k <= n,
                n == t.len(),
                r@ == t.subrange(a as int, i as int),
            decreases k - i,
        {
            push_char(&mut r, v[i]);
            assert(t.subrange(a as int, i + 1) =~= t.subrange(a as int, i as int).push(t[i as int]));
            i = i + 1;
        }
    }
    let ghost shown = r@;
    assert(shown == (if whole.len() == 0 { seq!['0'] } else { whole }));
    if b > start {
        push_char(&mut r, '.');
        let mut i: usize = start;
        while i < b
            invariant
                t == v@,
                start <= i <= b <= n,
                n == t.len(),
                r@ == shown + seq!['.'] + t.subrange(start as int, i as int),
            decreases b - i,
        {
            push_char(&mut r, v[i]);
            assert(t.subrange(start as int, i + 1) =~= t.subrange(start as int, i as int).push(
                t[i as int],
            ));
            i = i + 1;
        }
        assert(r@ =~= shown + (seq!['.'] + fraction));
    } else {
        assert(r@ =~= shown + Seq::<char>::empty());
    }
    r
}

/// The text a token kind carries, if any.
pub open spec fn kind_text(k: TokenKindView) -> Option<Seq<char>> {
    match k {
        TokenKindOf::String(s) => Some(s),
        TokenKindOf::Identifier(s) => Some(s),
        TokenKindOf::Numeric(s) => Some(number_text(s)),
        _ => None,
    }
}

/// How a token kind is displayed: `<Name>`, or `<Name(text)>` for a kind that
/// carries text, a number in its shortest decimal form.
pub open spec fn kind_display(k: TokenKindView) -> Seq<char> {
    match kind_text(k) {
        Some(t) => "<"@ + kind_name(k) + "("@ + t + ")>"@,
        None => "<"@ + kind_name(k) + ">"@,
    }
}

/// The name under which a token kind is displayed.
pub fn token_name(token: &TokenKind) -> (r: &'static str)
    ensures
        r@ == kind_name(token@),
{
    match token {
        TokenKindOf::NotEqual => "NotEqual",
        TokenKindOf::LeftParen => "LeftParen",
        TokenKindOf::RightParen => "RightParen",
        TokenKindOf::Slash => "Slash",
        TokenKindOf::Identifier(_) => "Identifier",
        TokenKindOf::Numeric(_) => "F64",
        TokenKindOf::Plus => "Plus",
        TokenKindOf::Minus => "Minus",
        TokenKindOf::Asterisk => "Asterisk",
        TokenKindOf::Equal => "Equal",
        TokenKindOf::LCurly => "LCurly",
        TokenKindOf::RCurly => "RCurly",
        TokenKindOf::If => "If",
        TokenKindOf::While => "While",
        TokenKindOf::True => "True",
        TokenKindOf::False => "False",
        TokenKindOf::DoubleEqual => "DoubleEqual",
        TokenKindOf::Percent => "Percent",
        TokenKindOf::Exclamation => "Exclamation",
        TokenKindOf::Break => "Break",
        TokenKindOf::String(_) => "String",
        TokenKindOf::Eof => "Eof",
        TokenKindOf::Comma => "Comma",
        TokenKindOf::Arrow => "Arrow",
        TokenKindOf::Less => "Less",
        TokenKindOf::LessOrEqual => "LessOrEqual",
        TokenKindOf::Greater => "Greater",
        TokenKindOf::GreaterOrEqual => "GreaterOrEqual",
        TokenKindOf::Or => "Or",
        TokenKindOf::And => "And",
        TokenKindOf::Else => "Else",
        TokenKindOf::Colon => "Colon",
        TokenKindOf::Load => "Load",
        TokenKindOf::Extern => "Extern",
    }
}

impl TokenKindOf<String> {
    /// The displayed form of the token kind, e.g. `<Plus>` or `<Identifier(x)>`.
    pub fn to_string(&self) -> (r: String)
        ensures
            r@ == kind_display(self@),
    {
        let mut r = string_of("<");
        r.append(token_name(self));
        match self {
            TokenKindOf::String(s) | TokenKindOf::Identifier(s) => {
                push_char(&mut r, '(');
                r.append(s.as_str());
                push_char(&mut r, ')');
            },
            TokenKindOf::Numeric(s) => {
                push_char(&mut r, '(');
                let number = number_display(s.as_str());
                r.append(number.as_str());
                push_char(&mut r, ')');
            },
            _ => {},
        }
        push_char(&mut r, '>');
        proof {
            reveal_strlit("<");
            reveal_strlit(">");
            reveal_strlit("(");
            reveal_strlit(")>");
        }
        r
    }
}

} // verus!
