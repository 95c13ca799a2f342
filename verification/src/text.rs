//! Small string-building helpers with exact specifications.

use vstd::prelude::*;
use vstd::string::StringExecFns;

verus! {

/// Appends one character to a string (`String::push`).
#[verifier::external_body]
pub(crate) fn push_char(s: &mut String, c: char)
    ensures
        final(s)@ == old(s)@.push(c),
{
    s.push(c);
}

/// Creates an owned string holding the characters of `s`.
pub fn string_of(s: &str) -> (r: String)
    ensures
        r@ == s@,
{
    String::from_str(s)
}

/// The decimal digits of `n`, most significant first (no leading zeros; `0` is `"0"`).
pub open spec fn decimal(n: nat) -> Seq<char>
    decreases n,
{
    if n < 10 {
        seq![digit_char(n)]
    } else {
        decimal(n / 10).push(digit_char(n % 10))
    }
}

/// The ASCII character of a single decimal digit.
pub open spec fn digit_char(d: nat) -> char {
    if d == 0 { '0' }
    else if d == 1 { '1' }
    else if d == 2 { '2' }
    else if d == 3 { '3' }
    else if d == 4 { '4' }
    else if d == 5 { '5' }
    else if d == 6 { '6' }
    else if d == 7 { '7' }
    else if d == 8 { '8' }
    else { '9' }
}

fn digit(d: u64) -> (c: char)
    requires
        d < 10,
    ensures
        c == digit_char(d as nat),
{
    if d == 0 { '0' }
    else if d == 1 { '1' }
    else if d == 2 { '2' }
    else if d == 3 { '3' }
    else if d == 4 { '4' }
    else if d == 5 { '5' }
    else if d == 6 { '6' }
    else if d == 7 { '7' }
    else if d == 8 { '8' }
    else { '9' }
}

/// Appends the decimal representation of `n` to `s`.
pub fn push_decimal(s: &mut String, n: u64)
    ensures
        final(s)@ == old(s)@ + decimal(n as nat),
    decreases n,
{
    if n < 10 {
        push_char(s, digit(n));
    } else {
        push_decimal(s, n / 10);
        push_char(s, digit(n % 10));
    }
}

} // verus!

verus! {

/// The characters of `s`, in order.
pub fn chars_of(s: &str) -> (v: Vec<char>)
    ensures
        v@ == s@,
{
    broadcast use vstd::string::group_string_axioms;
    let mut v: Vec<char> = Vec::new();
    for c in it: s.chars()
        invariant
            v@ == it.seq().take(it.index()),
    {
        v.push(c);
    }
    v
}

} // verus!

verus! {

/// A string holding the characters of `v`.
pub fn string_from_chars(v: &Vec<char>) -> (r: String)
    ensures
        r@ == v@,
{
    let mut r = String::new();
    let mut i: usize = 0;
    while i < v.len()
        invariant
            i <= v.len(),
            r@ == v@.take(i as int),
        decreases v.len() - i,
    {
        push_char(&mut r, v[i]);
        i = i + 1;
        assert(v@.take(i as int) == v@.take((i - 1) as int).push(v@[i - 1]));
    }
    assert(v@.take(v.len() as int) == v@);
    r
}

/// Whether the characters `v` spell `s`.
pub fn chars_are(v: &Vec<char>, s: &str) -> (r: bool)
    ensures
        r == (v@ == s@),
{
    let w = chars_of(s);
    if v.len() != w.len() {
        return false;
    }
    let mut i: usize = 0;
    while i < v.len()
        invariant
            i <= v.len(),
            v.len() == w.len(),
            w@ == s@,
            forall|j: int| 0 <= j < i ==> v@[j] == w@[j],
        decreases v.len() - i,
    {
        if v[i] != w[i] {
            return false;
        }
        i = i + 1;
    }
    assert(v@ =~= w@);
    true
}

} // verus!

verus! {

/// Whether `s` and `lit` hold the same characters.
pub fn text_is(s: &str, lit: &str) -> (r: bool)
    ensures
        r == (s@ == lit@),
{
    let v = chars_of(s);
    chars_are(&v, lit)
}

} // verus!

verus! {

/// `s` with each `\n` escape, a backslash followed by `n`, replaced by a newline,
/// the escapes found from the left.
pub open spec fn newlines_unescaped(s: Seq<char>) -> Seq<char>
    decreases s.len(),
{
    if s.len() == 0 {
        s
    } else if s.len() >= 2 && s[0] == '\\' && s[1] == 'n' {
        seq!['\n'] + newlines_unescaped(s.skip(2))
    } else {
        seq![s[0]] + newlines_unescaped(s.drop_first())
    }
}

/// The text of a string literal with its `\n` escapes turned into newlines.
pub fn unescape_newlines(s: &str) -> (r: String)
    ensures
        r@ == newlines_unescaped(s@),
{
    let v = chars_of(s);
    let n = v.len();
    let ghost t = v@;
    let mut r = String::new();
    let mut i: usize = 0;
    assert(t.subrange(0, n as int) =~= t);
    while i < n
        invariant
            t == v@,
            n == t.len(),
            i <= n,
            newlines_unescaped(t) == r@ + newlines_unescaped(t.subrange(i as int, n as int)),
        decreases n - i,
    {
        let ghost rest = t.subrange(i as int, n as int);
        if i + 1 < n && v[i] == '\\' && v[i + 1] == 'n' {
            assert(rest.skip(2) =~= t.subrange(i + 2, n as int));
            let ghost before = r@;
            push_char(&mut r, '\n');
            assert(before + newlines_unescaped(rest) =~= r@ + newlines_unescaped(
                t.subrange(i + 2, n as int),
            ));
            i = i + 2;
        } else {
            assert(rest.drop_first() =~= t.subrange(i + 1, n as int));
            let ghost before = r@;
            push_char(&mut r, v[i]);
            assert(before + newlines_unescaped(rest) =~= r@ + newlines_unescaped(
                t.subrange(i + 1, n as int),
            ));
            i = i + 1;
        }
    }
    assert(t.subrange(n as int, n as int) =~= Seq::<char>::empty());
    assert(r@ + Seq::<char>::empty() =~= r@);
    r
}

} // verus!
