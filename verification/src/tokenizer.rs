//! The tokenizer: turns source text into a sequence of tokens ending with `Eof`.

use vstd::prelude::*;

use crate::chars::{alphabetic, is_alphabetic, is_alphanumeric, is_numeric, numeric};
use crate::parser::Span;
use crate::text::{chars_are, chars_of, push_char, string_from_chars, string_of};
use crate::token::{kind_name, Token, TokenKind, TokenKindOf, TokenKindView, TokenOf, TokenView};

verus! {

/// A character the tokenizer does not accept, and the line it stands on.
#[derive(Clone, Copy, Debug, PartialEq)]
pub struct TokenizerError {
    pub chr: char,
    pub line: usize,
}

impl TokenizerError {
    /// `unexpected character '<chr>'`.
    pub fn to_string(&self) -> (r: String)
        ensures
            r@ == "unexpected character '"@ + seq![self.chr, '\''],
    {
        let mut r = string_of("unexpected character '");
        push_char(&mut r, self.chr);
        push_char(&mut r, '\'');
        r
    }
}

/// Tokenizing interface.
pub trait Tokenize {
    /// Whether tokenizing finishes.
    spec fn tokenizable(&self) -> bool;

    fn tokenize(&mut self) -> Result<Vec<Token>, TokenizerError>
        requires
            old(self).tokenizable(),
    ;
}

// ---------------------------------------------------------------------------
// Mathematical model of tokenizing.
// ---------------------------------------------------------------------------

/// The tokenizer's position in the source and the tokens produced so far.
/// `pos` counts characters; `line` and `column` are what the next token's span
/// records.
#[verifier::ext_equal]
pub struct ScanState {
    pub pos: nat,
    pub line: nat,
    pub column: nat,
    pub tokens: Seq<TokenView>,
}

/// What scanning one token does.
pub enum Step {
    Next(ScanState),
    Fail(TokenizerError),
    /// The source ends where the tokenizer still needs a character, or a
    /// numeric literal is not a number: tokenizing does not finish.
    Abort,
}

/// What tokenizing a whole source gives.
pub enum Lexed {
    Tokens(Seq<TokenView>),
    Failed(TokenizerError),
    Aborted,
}

/// The state `tokenize` starts from.
pub open spec fn start_state() -> ScanState {
    ScanState { pos: 0, line: 1, column: 1, tokens: Seq::empty() }
}

/// `k` more characters consumed on the current line.
pub open spec fn advanced(st: ScanState, k: nat) -> ScanState {
    ScanState { pos: st.pos + k, column: st.column + k, ..st }
}

/// A token of kind `kind` recorded at the current line and column.
pub open spec fn with_token(st: ScanState, kind: TokenKindView) -> ScanState {
    ScanState {
        tokens: st.tokens.push(
            TokenOf { kind, span: Span { line: st.line as u32, column: st.column as u32 } },
        ),
        ..st
    }
}

/// Characters that continue an identifier.
pub open spec fn ident_char(c: char) -> bool {
    alphabetic(c) || numeric(c) || c == '_'
}

/// Characters that continue a numeric literal.
pub open spec fn number_char(c: char) -> bool {
    numeric(c) || c == '.'
}

/// The run of characters continuing a word.
pub open spec fn in_word() -> spec_fn(char) -> bool {
    |c: char| ident_char(c)
}

/// The run of characters continuing a numeric literal.
pub open spec fn in_number() -> spec_fn(char) -> bool {
    |c: char| number_char(c)
}

/// The run of characters inside a string literal.
pub open spec fn in_string() -> spec_fn(char) -> bool {
    |c: char| c != '"'
}

/// The run of characters inside a comment.
pub open spec fn in_comment() -> spec_fn(char) -> bool {
    |c: char| c != '\n'
}

/// The first position at or after `p` whose character does not satisfy `keep`,
/// or `None` when every character from `p` to the end satisfies it.
pub open spec fn run_end(src: Seq<char>, p: nat, keep: spec_fn(char) -> bool) -> Option<nat>
    decreases src.len() - p,
{
    if p >= src.len() {
        None
    } else if !keep(src[p as int]) {
        Some(p)
    } else {
        run_end(src, p + 1, keep)
    }
}

/// Whether `lit` is a number that `f64`'s `FromStr` accepts, for the characters a
/// numeric literal can hold: ASCII digits with at most one `.` among them and at
/// least one digit.
pub open spec fn valid_number(lit: Seq<char>) -> bool {
    &&& forall|i: int| 0 <= i < lit.len() ==> ('0' <= #[trigger] lit[i] <= '9' || lit[i] == '.')
    &&& forall|i: int, j: int| 0 <= i < j < lit.len() && #[trigger] lit[i] == '.' ==> #[trigger] lit[j] != '.'
    &&& exists|i: int| 0 <= i < lit.len() && '0' <= #[trigger] lit[i] <= '9'
}

/// The token kind of an identifier-shaped word: a keyword or an identifier.
pub open spec fn word_kind(lit: Seq<char>) -> TokenKindView {
    if lit == "if"@ {
        TokenKindOf::If
    } else if lit == "while"@ {
        TokenKindOf::While
    } else if lit == "true"@ {
        TokenKindOf::True
    } else if lit == "false"@ {
        TokenKindOf::False
    } else if lit == "break"@ {
        TokenKindOf::Break
    } else if lit == "else"@ {
        TokenKindOf::Else
    } else if lit == "load"@ {
        TokenKindOf::Load
    } else if lit == "extern"@ {
        TokenKindOf::Extern
    } else {
        TokenKindOf::Identifier(lit)
    }
}

/// `s` with its ASCII capital letters made small.
pub open spec fn lowercase(s: Seq<char>) -> Seq<char> {
    Seq::new(
        s.len(),
        |i: int|
            if 'A' <= s[i] <= 'Z' {
                ((s[i] as u32) + 32) as char
            } else {
                s[i]
            },
    )
}

/// A word is a keyword exactly when it spells that keyword's name in small
/// letters; any other word is an identifier with the word as its name.
pub proof fn lemma_keywords_spell_their_names(lit: Seq<char>)
    ensures
        word_kind(lit) is Identifier ==> word_kind(lit) == TokenKindOf::Identifier(lit),
        !(word_kind(lit) is Identifier) ==> lit == lowercase(kind_name(word_kind(lit))),
{
    reveal_strlit("if");
    reveal_strlit("while");
    reveal_strlit("true");
    reveal_strlit("false");
    reveal_strlit("break");
    reveal_strlit("else");
    reveal_strlit("load");
    reveal_strlit("extern");
    reveal_strlit("If");
    reveal_strlit("While");
    reveal_strlit("True");
    reveal_strlit("False");
    reveal_strlit("Break");
    reveal_strlit("Else");
    reveal_strlit("Load");
    reveal_strlit("Extern");
    let k = word_kind(lit);
    if !(k is Identifier) {
        assert(lit =~= lowercase(kind_name(k)));
    }
}

/// One token made of the character before `st.pos` and the identifier
/// characters that follow it.
pub open spec fn scan_word(src: Seq<char>, st: ScanState) -> Step {
    match run_end(src, st.pos, in_word()) {
        None => Step::Abort,
        Some(q) => {
            let lit = src.subrange(st.pos - 1, q as int);
            Step::Next(with_token(advanced(st, (q - st.pos) as nat), word_kind(lit)))
        },
    }
}

/// One numeric literal made of the character before `st.pos` and the digits and
/// dots that follow it.
pub open spec fn scan_number(src: Seq<char>, st: ScanState) -> Step {
    match run_end(src, st.pos, in_number()) {
        None => Step::Abort,
        Some(q) => {
            let lit = src.subrange(st.pos - 1, q as int);
            if valid_number(lit) {
                Step::Next(with_token(advanced(st, (q - st.pos) as nat), TokenKindOf::Numeric(lit)))
            } else {
                Step::Abort
            }
        },
    }
}

/// A string literal whose opening quote has been consumed.
pub open spec fn scan_string(src: Seq<char>, st: ScanState) -> Step {
    match run_end(src, st.pos, in_string()) {
        None => Step::Abort,
        Some(q) => {
            let lit = src.subrange(st.pos as int, q as int);
            Step::Next(with_token(advanced(st, (q - st.pos + 1) as nat), TokenKindOf::String(lit)))
        },
    }
}

/// A comment: everything up to, not including, the next newline.
pub open spec fn skip_comment(src: Seq<char>, st: ScanState) -> Step {
    match run_end(src, st.pos, in_comment()) {
        None => Step::Abort,
        Some(q) => Step::Next(advanced(st, (q - st.pos) as nat)),
    }
}

/// After a character `c` no operator matched: a word, a number, or an error.
pub open spec fn scan_other(src: Seq<char>, st: ScanState, c: char) -> Step {
    if alphabetic(c) {
        scan_word(src, st)
    } else if numeric(c) {
        scan_number(src, st)
    } else {
        Step::Fail(TokenizerError { chr: c, line: st.line as usize })
    }
}

/// A one-character token, or a two-character one when the next character is
/// `second`.
pub open spec fn scan_pair(
    src: Seq<char>,
    st: ScanState,
    second: char,
    pair: TokenKindView,
    single: TokenKindView,
) -> Step {
    if st.pos >= src.len() {
        Step::Abort
    } else if src[st.pos as int] == second {
        Step::Next(with_token(advanced(st, 1), pair))
    } else {
        Step::Next(with_token(st, single))
    }
}

/// `|` or `&`: a two-character operator when the character is doubled. The
/// second character is consumed either way.
pub open spec fn scan_doubled(src: Seq<char>, st: ScanState, c: char, pair: TokenKindView) -> Step {
    if st.pos >= src.len() {
        Step::Abort
    } else if src[st.pos as int] == c {
        Step::Next(with_token(advanced(st, 1), pair))
    } else {
        scan_other(src, advanced(st, 1), c)
    }
}

/// `=`, `==` or `=>`. The two-character tokens are recorded before their second
/// character is consumed.
pub open spec fn scan_equal(src: Seq<char>, st: ScanState) -> Step {
    if st.pos >= src.len() {
        Step::Abort
    } else if src[st.pos as int] == '=' {
        Step::Next(advanced(with_token(st, TokenKindOf::DoubleEqual), 1))
    } else if src[st.pos as int] == '>' {
        Step::Next(advanced(with_token(st, TokenKindOf::Arrow), 1))
    } else {
        Step::Next(with_token(st, TokenKindOf::Equal))
    }
}

/// `/`, or a comment when it is followed by another `/`.
pub open spec fn scan_slash(src: Seq<char>, st: ScanState) -> Step {
    if st.pos >= src.len() {
        Step::Abort
    } else if src[st.pos as int] == '/' {
        skip_comment(src, st)
    } else {
        Step::Next(with_token(st, TokenKindOf::Slash))
    }
}

/// Scanning the token that starts at `st.pos`.
pub open spec fn step(src: Seq<char>, st: ScanState) -> Step
    recommends
        st.pos < src.len(),
{
    let c = src[st.pos as int];
    let s1 = advanced(st, 1);
    if c == ' ' || c == '\r' || c == '\t' {
        Step::Next(s1)
    } else if c == '\n' {
        Step::Next(ScanState { line: s1.line + 1, column: 0, ..s1 })
    } else if c == '<' {
        scan_pair(src, s1, '=', TokenKindOf::LessOrEqual, TokenKindOf::Less)
    } else if c == '>' {
        scan_pair(src, s1, '=', TokenKindOf::GreaterOrEqual, TokenKindOf::Greater)
    } else if c == '(' {
        Step::Next(with_token(s1, TokenKindOf::LeftParen))
    } else if c == ')' {
        Step::Next(with_token(s1, TokenKindOf::RightParen))
    } else if c == '+' {
        Step::Next(with_token(s1, TokenKindOf::Plus))
    } else if c == '-' {
        Step::Next(with_token(s1, TokenKindOf::Minus))
    } else if c == '*' {
        Step::Next(with_token(s1, TokenKindOf::Asterisk))
    } else if c == '%' {
        Step::Next(with_token(s1, TokenKindOf::Percent))
    } else if c == '"' {
        scan_string(src, s1)
    } else if c == '!' {
        scan_pair(src, s1, '=', TokenKindOf::NotEqual, TokenKindOf::Exclamation)
    } else if c == '|' {
        scan_doubled(src, s1, '|', TokenKindOf::Or)
    } else if c == '&' {
        scan_doubled(src, s1, '&', TokenKindOf::And)
    } else if c == '=' {
        scan_equal(src, s1)
    } else if c == '{' {
        Step::Next(with_token(s1, TokenKindOf::LCurly))
    } else if c == '}' {
        Step::Next(with_token(s1, TokenKindOf::RCurly))
    } else if c == ',' {
        Step::Next(with_token(s1, TokenKindOf::Comma))
    } else if c == ':' {
        Step::Next(with_token(s1, TokenKindOf::Colon))
    } else if c == '/' {
        scan_slash(src, s1)
    } else {
        scan_other(src, s1, c)
    }
}

/// A position found by `run_end` lies at or after the start and before the end.
pub proof fn lemma_run_end_bounds(src: Seq<char>, p: nat, keep: spec_fn(char) -> bool)
    ensures
        run_end(src, p, keep) matches Some(q) ==> p <= q < src.len() && !keep(src[q as int]),
    decreases src.len() - p,
{
    if p < src.len() && keep(src[p as int]) {
        lemma_run_end_bounds(src, p + 1, keep);
    }
}

/// Each scanning step consumes at least one character and stays within the source.
pub proof fn lemma_step_progress(src: Seq<char>, st: ScanState)
    requires
        st.pos < src.len(),
    ensures
        step(src, st) matches Step::Next(st2) ==> st.pos < st2.pos <= src.len(),
{
    let s1 = advanced(st, 1);
    lemma_run_end_bounds(src, s1.pos, in_word());
    lemma_run_end_bounds(src, s1.pos, in_number());
    lemma_run_end_bounds(src, s1.pos, in_string());
    lemma_run_end_bounds(src, s1.pos, in_comment());
    lemma_run_end_bounds(src, s1.pos + 1, in_word());
    lemma_run_end_bounds(src, s1.pos + 1, in_number());
}

/// Tokenizing from state `st` to the end of the source.
pub open spec fn scan(src: Seq<char>, st: ScanState) -> Lexed
    decreases src.len() - st.pos,
{
    if st.pos >= src.len() {
        Lexed::Tokens(with_token(st, TokenKindOf::Eof).tokens)
    } else {
        proof {
            lemma_step_progress(src, st);
        }
        match step(src, st) {
            Step::Next(st2) => scan(src, st2),
            Step::Fail(e) => Lexed::Failed(e),
            Step::Abort => Lexed::Aborted,
        }
    }
}

/// A space, a tab or a carriage return between tokens is skipped: tokenizing
/// from it gives what tokenizing from the next character, one column on, gives.
pub proof fn lemma_blank_is_skipped(src: Seq<char>, st: ScanState)
    requires
        st.pos < src.len(),
        src[st.pos as int] == ' ' || src[st.pos as int] == '\t' || src[st.pos as int] == '\r',
    ensures
        scan(src, st) == scan(src, ScanState { pos: st.pos + 1, column: st.column + 1, ..st }),
{
    assert(ScanState { pos: st.pos + 1, column: st.column + 1, ..st } == advanced(st, 1));
}

/// A newline between tokens is skipped and starts the next line: tokenizing
/// from it gives what tokenizing from the next character, on the next line,
/// gives.
pub proof fn lemma_newline_starts_line(src: Seq<char>, st: ScanState)
    requires
        st.pos < src.len(),
        src[st.pos as int] == '\n',
    ensures
        scan(src, st) == scan(src, ScanState { pos: st.pos + 1, line: st.line + 1, column: 0, ..st }),
{
}

/// The result of tokenizing `src`.
pub open spec fn tokenize_spec(src: Seq<char>) -> Lexed {
    scan(src, start_state())
}

/// No token of `ts` is `Eof`.
pub open spec fn no_eof(ts: Seq<TokenView>) -> bool {
    forall|i: int| 0 <= i < ts.len() ==> !(#[trigger] ts[i].kind is Eof)
}

/// `ts` ends with an `Eof` token, and no token before it is one.
pub open spec fn ends_with_eof(ts: Seq<TokenView>) -> bool {
    &&& ts.len() >= 1
    &&& ts.last().kind is Eof
    &&& no_eof(ts.drop_last())
}

/// Scanning one token adds no `Eof`.
proof fn lemma_step_no_eof(src: Seq<char>, st: ScanState)
    requires
        st.pos < src.len(),
        no_eof(st.tokens),
    ensures
        step(src, st) matches Step::Next(st2) ==> no_eof(st2.tokens),
{
    let s1 = advanced(st, 1);
    assert forall|k: TokenKindView, s: ScanState| #![trigger with_token(s, k)]
        no_eof(s.tokens) && !(k is Eof) implies no_eof(with_token(s, k).tokens) by {
        assert forall|i: int| 0 <= i < with_token(s, k).tokens.len() implies !(
        #[trigger] with_token(s, k).tokens[i].kind is Eof) by {
            if i < s.tokens.len() {
                assert(with_token(s, k).tokens[i] == s.tokens[i]);
            }
        }
    }
    assert forall|lit: Seq<char>| !(#[trigger] word_kind(lit) is Eof) by {}
}

/// Scanning from a state without `Eof` tokens, when it succeeds, gives tokens
/// that end with a single `Eof`.
proof fn lemma_scan_ends_with_eof(src: Seq<char>, st: ScanState)
    requires
        no_eof(st.tokens),
    ensures
        scan(src, st) matches Lexed::Tokens(ts) ==> ends_with_eof(ts),
    decreases src.len() - st.pos,
{
    if st.pos >= src.len() {
        let ts = with_token(st, TokenKindOf::Eof).tokens;
        assert(ts.drop_last() =~= st.tokens);
    } else {
        lemma_step_progress(src, st);
        lemma_step_no_eof(src, st);
        if let Step::Next(st2) = step(src, st) {
            lemma_scan_ends_with_eof(src, st2);
        }
    }
}

/// The tokens of a source that tokenizes end with `Eof`, and hold no other `Eof`.
pub proof fn lemma_tokens_end_with_eof(src: Seq<char>)
    ensures
        tokenize_spec(src) matches Lexed::Tokens(ts) ==> ends_with_eof(ts),
{
    lemma_scan_ends_with_eof(src, start_state());
}


// ---------------------------------------------------------------------------
// The tokenizer.
// ---------------------------------------------------------------------------

/// Why scanning stopped before the end of the source.
enum Stop {
    Error(TokenizerError),
    Abort,
}

/// Whether an executable scanning result `r`, with the tokenizer left in state
/// `after`, is what the model step `s` describes.
spec fn step_done(s: Step, r: Result<(), Stop>, after: ScanState) -> bool {
    match s {
        Step::Next(st2) => r is Ok && after == st2,
        Step::Fail(e) => r matches Err(Stop::Error(e2)) && e2 == e,
        Step::Abort => r matches Err(Stop::Abort),
    }
}

/// A tokenizer over one source text.
pub struct Tokenizer {
    source: Vec<char>,
    current: usize,
    column: usize,
    tokens: Vec<Token>,
    line: usize,
}

impl View for Tokenizer {
    type V = Seq<char>;

    /// The source text.
    closed spec fn view(&self) -> Seq<char> {
        self.source@
    }
}

impl Tokenizer {
    /// The tokenizer's position and the tokens it has produced.
    closed spec fn st(&self) -> ScanState {
        ScanState {
            pos: self.current as nat,
            line: self.line as nat,
            column: self.column as nat,
            tokens: self.tokens@.map_values(|t: Token| t@),
        }
    }

    closed spec fn wf(&self) -> bool {
        &&& self.current <= self.source.len()
        &&& self.column <= self.current + 1
        &&& self.line <= self.current + 1
        &&& self.source.len() + 2 <= usize::MAX
    }

    /// A tokenizer over `source`.
    pub fn new(source: String) -> (t: Self)
        ensures
            t@ == source@,
    {
        Tokenizer {
            source: chars_of(source.as_str()),
            current: 0,
            line: 0,
            column: 0,
            tokens: Vec::new(),
        }
    }

    fn at_end(&self) -> (r: bool)
        requires
            self.wf(),
        ensures
            r == (self.current >= self.source.len()),
    {
        self.current >= self.source.len()
    }

    fn peek(&self) -> (c: char)
        requires
            self.current < self.source.len(),
        ensures
            c == self.source@[self.current as int],
    {
        self.source[self.current]
    }

    fn previous(&self) -> (c: char)
        requires
            1 <= self.current <= self.source.len(),
        ensures
            c == self.source@[self.current - 1],
    {
        self.source[self.current - 1]
    }

    fn advance(&mut self) -> (c: char)
        requires
            old(self).wf(),
            old(self).current < old(self).source.len(),
        ensures
            final(self).wf(),
            final(self).source == old(self).source,
            final(self).st() == advanced(old(self).st(), 1),
            c == old(self).source@[old(self).current as int],
    {
        let c = self.peek();
        self.column = self.column + 1;
        self.current = self.current + 1;
        c
    }

    fn add_token(&mut self, kind: TokenKind)
        requires
            old(self).wf(),
        ensures
            final(self).wf(),
            final(self).source == old(self).source,
            final(self).st() == with_token(old(self).st(), kind@),
    {
        let ghost old_tokens = self.tokens@;
        self.tokens.push(
            TokenOf {
                kind,
                span: Span { line: self.line as u32, column: self.column as u32 },
            },
        );
        assert(self.tokens@.map_values(|t: Token| t@) =~= old_tokens.map_values(|t: Token| t@).push(
            self.tokens@[self.tokens@.len() - 1]@,
        ));
    }
}


/// The runs of characters the tokenizer reads in one go.
enum Run {
    Word,
    Number,
    Text,
    Comment,
}

spec fn keep_of(run: Run) -> spec_fn(char) -> bool {
    match run {
        Run::Word => in_word(),
        Run::Number => in_number(),
        Run::Text => in_string(),
        Run::Comment => in_comment(),
    }
}

fn keeps(run: &Run, c: char) -> (b: bool)
    ensures
        b == keep_of(*run)(c),
{
    match run {
        Run::Word => is_alphanumeric(c) || c == '_',
        Run::Number => is_numeric(c) || c == '.',
        Run::Text => c != '"',
        Run::Comment => c != '\n',
    }
}

/// Whether the characters `lit` are a number `f64` parsing accepts.
fn number_is_valid(lit: &Vec<char>) -> (r: bool)
    ensures
        r == valid_number(lit@),
{
    let mut i: usize = 0;
    let mut dot: Option<usize> = None;
    let mut digit = false;
    while i < lit.len()
        invariant
            i <= lit.len(),
            forall|j: int| 0 <= j < i ==> ('0' <= #[trigger] lit@[j] <= '9' || lit@[j] == '.'),
            dot matches Some(d) ==> d < i && lit@[d as int] == '.',
            forall|j: int| 0 <= j < i && #[trigger] lit@[j] == '.' ==> dot == Some(j as usize),
            digit <==> exists|j: int| 0 <= j < i && '0' <= #[trigger] lit@[j] <= '9',
        decreases lit.len() - i,
    {
        let c = lit[i];
        if c == '.' {
            if let Some(d) = dot {
                assert(lit@[d as int] == '.' && lit@[i as int] == '.');
                return false;
            }
            dot = Some(i);
        } else if '0' <= c && c <= '9' {
            digit = true;
        } else {
            assert(!('0' <= lit@[i as int] <= '9' || lit@[i as int] == '.'));
            return false;
        }
        i = i + 1;
    }
    digit
}

impl Tokenizer {
    /// Reads characters of `run` from the current position, onto `literal`,
    /// stopping before the first character that does not belong to it.
    /// Returns `false` when the source ends first.
    fn take_run(&mut self, run: &Run, literal: &mut Vec<char>) -> (found: bool)
        requires
            old(self).wf(),
        ensures
            final(self).wf(),
            final(self).source == old(self).source,
            found == run_end(old(self)@, old(self).current as nat, keep_of(*run)) is Some,
            found ==> run_end(old(self)@, old(self).current as nat, keep_of(*run)) == Some(
                final(self).current as nat,
            ),
            found ==> final(self).st() == advanced(
                old(self).st(),
                (final(self).current - old(self).current) as nat,
            ),
            found ==> final(literal)@ == old(literal)@ + old(self)@.subrange(
                old(self).current as int,
                final(self).current as int,
            ),
    {
        let ghost src = self@;
        let ghost start = self.current;
        let ghost st0 = self.st();
        let ghost lit0 = literal@;
        let ghost source0 = self.source;
        loop
            invariant
                self.wf(),
                self.source == source0,
                self@ == src,
                source0 == old(self).source,
                src == old(self)@,
                start == old(self).current,
                st0 == old(self).st(),
                lit0 == old(literal)@,
                start <= self.current <= src.len(),
                run_end(src, start as nat, keep_of(*run)) == run_end(
                    src,
                    self.current as nat,
                    keep_of(*run),
                ),
                self.st() == advanced(st0, (self.current - start) as nat),
                literal@ == lit0 + src.subrange(start as int, self.current as int),
            decreases src.len() - self.current,
        {
            if self.at_end() {
                return false;
            }
            let c = self.peek();
            if !keeps(run, c) {
                assert(run_end(src, self.current as nat, keep_of(*run)) == Some(self.current as nat));
                return true;
            }
            literal.push(c);
            self.advance();
            assert(src.subrange(start as int, self.current as int) =~= src.subrange(
                start as int,
                self.current - 1,
            ).push(c));
        }
    }

    /// A word: a keyword or an identifier, starting with the character just read.
    fn identifier(&mut self) -> (r: Result<(), Stop>)
        requires
            old(self).wf(),
            1 <= old(self).current,
        ensures
            final(self).wf(),
            final(self).source == old(self).source,
            step_done(scan_word(old(self)@, old(self).st()), r, final(self).st()),
    {
        let mut literal: Vec<char> = Vec::new();
        literal.push(self.previous());
        let ghost start = self.current;
        let ghost lit0 = literal@;
        if !self.take_run(&Run::Word, &mut literal) {
            return Err(Stop::Abort);
        }
        assert(literal@ =~= self@.subrange(start - 1, self.current as int));
        let kind = if chars_are(&literal, "if") {
            TokenKindOf::If
        } else if chars_are(&literal, "while") {
            TokenKindOf::While
        } else if chars_are(&literal, "true") {
            TokenKindOf::True
        } else if chars_are(&literal, "false") {
            TokenKindOf::False
        } else if chars_are(&literal, "break") {
            TokenKindOf::Break
        } else if chars_are(&literal, "else") {
            TokenKindOf::Else
        } else if chars_are(&literal, "load") {
            TokenKindOf::Load
        } else if chars_are(&literal, "extern") {
            TokenKindOf::Extern
        } else {
            TokenKindOf::Identifier(string_from_chars(&literal))
        };
        self.add_token(kind);
        Ok(())
    }

    /// A numeric literal, starting with the character just read.
    fn numeric(&mut self) -> (r: Result<(), Stop>)
        requires
            old(self).wf(),
            1 <= old(self).current,
        ensures
            final(self).wf(),
            final(self).source == old(self).source,
            step_done(scan_number(old(self)@, old(self).st()), r, final(self).st()),
    {
        let mut literal: Vec<char> = Vec::new();
        literal.push(self.previous());
        let ghost start = self.current;
        if !self.take_run(&Run::Number, &mut literal) {
            return Err(Stop::Abort);
        }
        assert(literal@ =~= self@.subrange(start - 1, self.current as int));
        if !number_is_valid(&literal) {
            return Err(Stop::Abort);
        }
        self.add_token(TokenKindOf::Numeric(string_from_chars(&literal)));
        Ok(())
    }

    /// A string literal whose opening quote was just read.
    fn string(&mut self) -> (r: Result<(), Stop>)
        requires
            old(self).wf(),
        ensures
            final(self).wf(),
            final(self).source == old(self).source,
            step_done(scan_string(old(self)@, old(self).st()), r, final(self).st()),
    {
        let mut literal: Vec<char> = Vec::new();
        let ghost start = self.current;
        if !self.take_run(&Run::Text, &mut literal) {
            return Err(Stop::Abort);
        }
        assert(literal@ =~= self@.subrange(start as int, self.current as int));
        proof {
            lemma_run_end_bounds(self@, start as nat, in_string());
        }
        self.advance();
        self.add_token(TokenKindOf::String(string_from_chars(&literal)));
        Ok(())
    }

    /// A comment, from its second `/` up to the end of the line.
    fn comment(&mut self) -> (r: Result<(), Stop>)
        requires
            old(self).wf(),
        ensures
            final(self).wf(),
            final(self).source == old(self).source,
            step_done(skip_comment(old(self)@, old(self).st()), r, final(self).st()),
    {
        let mut skipped: Vec<char> = Vec::new();
        if !self.take_run(&Run::Comment, &mut skipped) {
            return Err(Stop::Abort);
        }
        Ok(())
    }

    /// A word, a number or an error, after a character `c` no operator matched.
    fn other(&mut self, c: char) -> (r: Result<(), Stop>)
        requires
            old(self).wf(),
            1 <= old(self).current,
        ensures
            final(self).wf(),
            final(self).source == old(self).source,
            step_done(scan_other(old(self)@, old(self).st(), c), r, final(self).st()),
    {
        if is_alphabetic(c) {
            self.identifier()
        } else if is_numeric(c) {
            self.numeric()
        } else {
            Err(Stop::Error(TokenizerError { chr: c, line: self.line }))
        }
    }
}


impl Tokenizer {
    /// `c`, or `c` followed by `second` as a two-character token.
    fn pair(&mut self, second: char, pair: TokenKind, single: TokenKind) -> (r: Result<(), Stop>)
        requires
            old(self).wf(),
        ensures
            final(self).wf(),
            final(self).source == old(self).source,
            step_done(
                scan_pair(old(self)@, old(self).st(), second, pair@, single@),
                r,
                final(self).st(),
            ),
    {
        if self.at_end() {
            return Err(Stop::Abort);
        }
        if second == self.peek() {
            self.advance();
            self.add_token(pair);
        } else {
            self.add_token(single);
        }
        Ok(())
    }

    /// `||` or `&&`; the character after the first is consumed either way.
    fn doubled(&mut self, c: char, pair: TokenKind) -> (r: Result<(), Stop>)
        requires
            old(self).wf(),
        ensures
            final(self).wf(),
            final(self).source == old(self).source,
            step_done(scan_doubled(old(self)@, old(self).st(), c, pair@), r, final(self).st()),
    {
        if self.at_end() {
            return Err(Stop::Abort);
        }
        if self.advance() == c {
            self.add_token(pair);
            Ok(())
        } else {
            self.other(c)
        }
    }

    /// `=`, `==` or `=>`.
    fn equal(&mut self) -> (r: Result<(), Stop>)
        requires
            old(self).wf(),
        ensures
            final(self).wf(),
            final(self).source == old(self).source,
            step_done(scan_equal(old(self)@, old(self).st()), r, final(self).st()),
    {
        if self.at_end() {
            return Err(Stop::Abort);
        }
        let next = self.peek();
        if next == '=' {
            self.add_token(TokenKindOf::DoubleEqual);
            self.advance();
        } else if next == '>' {
            self.add_token(TokenKindOf::Arrow);
            self.advance();
        } else {
            self.add_token(TokenKindOf::Equal);
        }
        Ok(())
    }

    /// `/`, or a comment.
    fn slash(&mut self) -> (r: Result<(), Stop>)
        requires
            old(self).wf(),
        ensures
            final(self).wf(),
            final(self).source == old(self).source,
            step_done(scan_slash(old(self)@, old(self).st()), r, final(self).st()),
    {
        if self.at_end() {
            return Err(Stop::Abort);
        }
        if '/' == self.peek() {
            self.comment()
        } else {
            self.add_token(TokenKindOf::Slash);
            Ok(())
        }
    }

    /// Scans the token starting at the current position.
    fn scan_token(&mut self) -> (r: Result<(), Stop>)
        requires
            old(self).wf(),
            old(self).current < old(self).source.len(),
        ensures
            final(self).wf(),
            final(self).source == old(self).source,
            step_done(step(old(self)@, old(self).st()), r, final(self).st()),
    {
        let chr = self.advance();
        if chr == ' ' || chr == '\r' || chr == '\t' {
            Ok(())
        } else if chr == '\n' {
            self.line = self.line + 1;
            self.column = 0;
            Ok(())
        } else if chr == '<' {
            self.pair('=', TokenKindOf::LessOrEqual, TokenKindOf::Less)
        } else if chr == '>' {
            self.pair('=', TokenKindOf::GreaterOrEqual, TokenKindOf::Greater)
        } else if chr == '(' {
            self.add_token(TokenKindOf::LeftParen);
            Ok(())
        } else if chr == ')' {
            self.add_token(TokenKindOf::RightParen);
            Ok(())
        } else if chr == '+' {
            self.add_token(TokenKindOf::Plus);
            Ok(())
        } else if chr == '-' {
            self.add_token(TokenKindOf::Minus);
            Ok(())
        } else if chr == '*' {
            self.add_token(TokenKindOf::Asterisk);
            Ok(())
        } else if chr == '%' {
            self.add_token(TokenKindOf::Percent);
            Ok(())
        } else if chr == '"' {
            self.string()
        } else if chr == '!' {
            self.pair('=', TokenKindOf::NotEqual, TokenKindOf::Exclamation)
        } else if chr == '|' {
            self.doubled('|', TokenKindOf::Or)
        } else if chr == '&' {
            self.doubled('&', TokenKindOf::And)
        } else if chr == '=' {
            self.equal()
        } else if chr == '{' {
            self.add_token(TokenKindOf::LCurly);
            Ok(())
        } else if chr == '}' {
            self.add_token(TokenKindOf::RCurly);
            Ok(())
        } else if chr == ',' {
            self.add_token(TokenKindOf::Comma);
            Ok(())
        } else if chr == ':' {
            self.add_token(TokenKindOf::Colon);
            Ok(())
        } else if chr == '/' {
            self.slash()
        } else {
            self.other(chr)
        }
    }

    /// Tokenizes the whole source from its start. `None` where tokenizing does
    /// not finish: the source ends where another character is needed (after
    /// `<`, `>`, `!`, `=`, `/`, `|` or `&`, inside a string literal or a
    /// comment, or right after a word or a number), or a numeric literal is not a
    /// number.
    pub fn try_tokenize(&mut self) -> (r: Option<Result<Vec<Token>, TokenizerError>>)
        requires
            old(self)@.len() + 2 <= usize::MAX,
        ensures
            final(self)@ == old(self)@,
            match tokenize_spec(old(self)@) {
                Lexed::Tokens(ts) => r matches Some(Ok(v)) && v@.map_values(|t: Token| t@) == ts,
                Lexed::Failed(e) => r == Some(Err::<Vec<Token>, TokenizerError>(e)),
                Lexed::Aborted => r is None,
            },
            r matches Some(Ok(v)) ==> ends_with_eof(v@.map_values(|t: Token| t@)),
    {
        proof {
            lemma_tokens_end_with_eof(self@);
        }
        self.current = 0;
        self.line = 1;
        self.column = 1;
        self.tokens.clear();
        let ghost src = self@;
        assert(self.st() =~= start_state());
        while !self.at_end()
            invariant
                self.wf(),
                self@ == src,
                src == old(self)@,
                scan(src, self.st()) == tokenize_spec(src),
            decreases src.len() - self.current,
        {
            let ghost before = self.st();
            proof {
                lemma_step_progress(src, before);
            }
            match self.scan_token() {
                Ok(()) => {},
                Err(Stop::Error(e)) => {
                    return Some(Err(e));
                },
                Err(Stop::Abort) => {
                    return None;
                },
            }
        }
        self.add_token(TokenKindOf::Eof);
        Some(Ok(self.tokens.clone()))
    }
}

impl Tokenize for Tokenizer {
    /// Tokenizing finishes when the source fits the machine and
    /// [`Tokenizer::try_tokenize`] would not give `None`.
    open spec fn tokenizable(&self) -> bool {
        self@.len() + 2 <= usize::MAX && !(tokenize_spec(self@) is Aborted)
    }

    /// Tokenizes the whole source from its start.
    fn tokenize(&mut self) -> (r: Result<Vec<Token>, TokenizerError>)
        ensures
            final(self)@ == old(self)@,
            match tokenize_spec(old(self)@) {
                Lexed::Tokens(ts) => r matches Ok(v) && v@.map_values(|t: Token| t@) == ts,
                Lexed::Failed(e) => r == Err::<Vec<Token>, TokenizerError>(e),
                Lexed::Aborted => false,
            },
            r matches Ok(v) ==> ends_with_eof(v@.map_values(|t: Token| t@)),
    {
        match self.try_tokenize() {
            Some(r) => r,
            None => Err(TokenizerError { chr: ' ', line: 0 }),
        }
    }
}

} // verus!
