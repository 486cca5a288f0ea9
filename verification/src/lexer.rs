//! The lexer: source text to tokens, by longest match.
//!
//! Whitespace (space, tab, carriage return, newline, form feed) and line
//! comments (`//` up to the end of the line) are skipped. Identifiers are
//! `[a-zA-Z_][a-zA-Z0-9_]*`, where a whole identifier equal to a keyword is
//! that keyword. Integers are `[0-9]+` and must fit in an `i64`; floats are
//! `[0-9]*\.[0-9]+`; strings are `"` ... `"` whose body holds no bare `"` or
//! `\` and whose escapes are `\"`, `\\`, `\b`, `\n`, `\f`, `\r`, `\t`; the
//! token holds the body unchanged.
use crate::text::{chars_of, push_char};
use crate::token::{FloatLit, SToken, Token};
use vstd::prelude::*;
use vstd::string::*;

verus! {

pub open spec fn is_ws(c: char) -> bool {
    c == ' ' || c == '\t' || c == '\r' || c == '\n' || c == '\x0c'
}

pub open spec fn is_digit(c: char) -> bool {
    '0' <= c && c <= '9'
}

pub open spec fn is_ident_start(c: char) -> bool {
    ('a' <= c && c <= 'z') || ('A' <= c && c <= 'Z') || c == '_'
}

pub open spec fn is_ident_char(c: char) -> bool {
    is_ident_start(c) || is_digit(c)
}

pub open spec fn is_escape(c: char) -> bool {
    c == '"' || c == '\\' || c == 'b' || c == 'n' || c == 'f' || c == 'r' || c == 't'
}

/// End of the run of digits that starts at `i`.
pub open spec fn digits_end(s: Seq<char>, i: int) -> int
    decreases s.len() - i,
{
    if 0 <= i < s.len() && is_digit(s[i]) {
        digits_end(s, i + 1)
    } else {
        i
    }
}

/// End of the run of identifier characters that starts at `i`.
pub open spec fn ident_end(s: Seq<char>, i: int) -> int
    decreases s.len() - i,
{
    if 0 <= i < s.len() && is_ident_char(s[i]) {
        ident_end(s, i + 1)
    } else {
        i
    }
}

/// Index of the first newline at or after `i`, or the end of the text.
pub open spec fn line_end(s: Seq<char>, i: int) -> int
    decreases s.len() - i,
{
    if 0 <= i < s.len() && s[i] != '\n' {
        line_end(s, i + 1)
    } else {
        i
    }
}

/// Index of the closing quote of a string body that starts at `i`.
pub open spec fn string_end(s: Seq<char>, i: int) -> Option<int>
    decreases s.len() - i,
{
    if i < 0 || i >= s.len() {
        None
    } else if s[i] == '"' {
        Some(i)
    } else if s[i] == '\\' {
        if i + 1 < s.len() && is_escape(s[i + 1]) {
            string_end(s, i + 2)
        } else {
            None
        }
    } else {
        string_end(s, i + 1)
    }
}

pub open spec fn digit_val(c: char) -> int {
    (c as u32) as int - 48
}

/// The value of the decimal digits `s[i..j]`.
pub open spec fn digits_value(s: Seq<char>, i: int, j: int) -> int
    decreases j - i,
{
    if j <= i {
        0
    } else {
        digits_value(s, i, j - 1) * 10 + digit_val(s[j - 1])
    }
}

/// First index in `[i, j)` that does not hold '0', or `j`.
pub open spec fn skip_zeros(s: Seq<char>, i: int, j: int) -> int
    decreases j - i,
{
    if i < j && s[i] == '0' {
        skip_zeros(s, i + 1, j)
    } else {
        i
    }
}

/// End of `s[i..j]` once its trailing '0's are dropped.
pub open spec fn trim_zeros(s: Seq<char>, i: int, j: int) -> int
    decreases j - i,
{
    if i < j && s[j - 1] == '0' {
        trim_zeros(s, i, j - 1)
    } else {
        j
    }
}

/// The shortest decimal text of the float literal whose integer digits are
/// `s[a..d]` and whose fraction digits are `s[d + 1..f]`.
pub open spec fn float_text(s: Seq<char>, a: int, d: int, f: int) -> Seq<char> {
    let p = skip_zeros(s, a, d);
    let ip = if p == d { seq!['0'] } else { s.subrange(p, d) };
    let q = trim_zeros(s, d + 1, f);
    if q == d + 1 {
        ip
    } else {
        ip.push('.') + s.subrange(d + 1, q)
    }
}

/// The token for a whole identifier-shaped word.
pub open spec fn word_token(w: Seq<char>) -> SToken {
    if w == "let"@ {
        SToken::Let
    } else if w == "if"@ {
        SToken::If
    } else if w == "else"@ {
        SToken::Else
    } else if w == "loop"@ {
        SToken::Loop
    } else if w == "break"@ {
        SToken::Break
    } else if w == "fn"@ {
        SToken::Fn
    } else if w == "return"@ {
        SToken::Return
    } else if w == "yield"@ {
        SToken::Yield
    } else if w == "spawn"@ {
        SToken::Spawn
    } else if w == "join"@ {
        SToken::Join
    } else if w == "wait"@ {
        SToken::Wait
    } else if w == "post"@ {
        SToken::Post
    } else if w == "true"@ {
        SToken::Bool(true)
    } else if w == "false"@ {
        SToken::Bool(false)
    } else {
        SToken::Ident(w)
    }
}

/// The one-character token for `c`, if there is one.
pub open spec fn single_token(c: char) -> Option<SToken> {
    if c == ';' { Some(SToken::Semi) }
    else if c == ':' { Some(SToken::Colon) }
    else if c == '.' { Some(SToken::Dot) }
    else if c == ',' { Some(SToken::Comma) }
    else if c == '(' { Some(SToken::OpenParen) }
    else if c == ')' { Some(SToken::CloseParen) }
    else if c == '{' { Some(SToken::OpenBrace) }
    else if c == '}' { Some(SToken::CloseBrace) }
    else if c == '[' { Some(SToken::OpenBracket) }
    else if c == ']' { Some(SToken::CloseBracket) }
    else if c == '@' { Some(SToken::At) }
    else if c == '#' { Some(SToken::Pound) }
    else if c == '~' { Some(SToken::Tilde) }
    else if c == '?' { Some(SToken::Question) }
    else if c == '$' { Some(SToken::Dollar) }
    else if c == '=' { Some(SToken::Eq) }
    else if c == '!' { Some(SToken::Bang) }
    else if c == '<' { Some(SToken::Lt) }
    else if c == '>' { Some(SToken::Gt) }
    else if c == '-' { Some(SToken::Minus) }
    else if c == '&' { Some(SToken::And) }
    else if c == '|' { Some(SToken::Or) }
    else if c == '+' { Some(SToken::Plus) }
    else if c == '*' { Some(SToken::Star) }
    else if c == '/' { Some(SToken::Slash) }
    else if c == '^' { Some(SToken::Caret) }
    else if c == '%' { Some(SToken::Percent) }
    else { None }
}

/// What the lexer does at one position: skip text up to an index, produce a
/// token that ends at an index, or fail.
pub enum LexStep {
    Skip(int),
    Tok(SToken, int),
    Fail,
}

/// The longest match at index `i` (which is inside `s`).
pub open spec fn lex_step(s: Seq<char>, i: int) -> LexStep {
    let c = s[i];
    let has_next = i + 1 < s.len();
    if is_ws(c) {
        LexStep::Skip(i + 1)
    } else if c == '/' && has_next && s[i + 1] == '/' {
        LexStep::Skip(line_end(s, i))
    } else if is_ident_start(c) {
        let e = ident_end(s, i + 1);
        LexStep::Tok(word_token(s.subrange(i, e)), e)
    } else if is_digit(c) || (c == '.' && has_next && is_digit(s[i + 1])) {
        let e = digits_end(s, i);
        if e + 1 < s.len() && s[e] == '.' && is_digit(s[e + 1]) {
            let f = digits_end(s, e + 1);
            LexStep::Tok(SToken::Float(float_text(s, i, e, f)), f)
        } else {
            let v = digits_value(s, i, e);
            if v <= i64::MAX {
                LexStep::Tok(SToken::Integer(v as i64), e)
            } else {
                LexStep::Fail
            }
        }
    } else if c == '"' {
        match string_end(s, i + 1) {
            Some(q) => LexStep::Tok(SToken::Str(s.subrange(i + 1, q)), q + 1),
            None => LexStep::Fail,
        }
    } else if c == '=' && has_next && s[i + 1] == '=' {
        LexStep::Tok(SToken::LogEq, i + 2)
    } else if c == '&' && has_next && s[i + 1] == '&' {
        LexStep::Tok(SToken::LogAnd, i + 2)
    } else if c == '|' && has_next && s[i + 1] == '|' {
        LexStep::Tok(SToken::LogOr, i + 2)
    } else if c == '-' && has_next && s[i + 1] == '>' {
        LexStep::Tok(SToken::FnDeclReturn, i + 2)
    } else {
        match single_token(c) {
            Some(t) => LexStep::Tok(t, i + 1),
            None => LexStep::Fail,
        }
    }
}

/// The tokens of `s` from index `i` on, or `None` where some part of the
/// text matches no token.
pub open spec fn lex_from(s: Seq<char>, i: int) -> Option<Seq<SToken>>
    decreases s.len() - i,
{
    if i < 0 || i >= s.len() {
        Some(Seq::empty())
    } else {
        match lex_step(s, i) {
            LexStep::Skip(j) => if i < j <= s.len() {
                lex_from(s, j)
            } else {
                None
            },
            LexStep::Tok(t, j) => if i < j <= s.len() {
                match lex_from(s, j) {
                    Some(rest) => Some(seq![t] + rest),
                    None => None,
                }
            } else {
                None
            },
            LexStep::Fail => None,
        }
    }
}

/// The tokens of a whole text.
pub open spec fn lex_spec(s: Seq<char>) -> Option<Seq<SToken>> {
    lex_from(s, 0)
}

pub open spec fn tokens_view(v: Seq<Token>) -> Seq<SToken> {
    v.map_values(|t: Token| t@)
}

/// One step of the lexer, as executed.
pub enum Step {
    Skip(usize),
    Tok(Token, usize),
    Fail,
}

pub open spec fn step_matches(st: Step, sp: LexStep) -> bool {
    match (st, sp) {
        (Step::Skip(j), LexStep::Skip(k)) => j == k,
        (Step::Tok(t, j), LexStep::Tok(u, k)) => t@ == u && j == k,
        (Step::Fail, LexStep::Fail) => true,
        _ => false,
    }
}

fn is_ws_c(c: char) -> (r: bool)
    ensures
        r == is_ws(c),
{
    c == ' ' || c == '\t' || c == '\r' || c == '\n' || c == '\x0c'
}

fn is_digit_c(c: char) -> (r: bool)
    ensures
        r == is_digit(c),
{
    '0' <= c && c <= '9'
}

fn is_ident_start_c(c: char) -> (r: bool)
    ensures
        r == is_ident_start(c),
{
    ('a' <= c && c <= 'z') || ('A' <= c && c <= 'Z') || c == '_'
}

fn is_ident_char_c(c: char) -> (r: bool)
    ensures
        r == is_ident_char(c),
{
    is_ident_start_c(c) || is_digit_c(c)
}

fn is_escape_c(c: char) -> (r: bool)
    ensures
        r == is_escape(c),
{
    c == '"' || c == '\\' || c == 'b' || c == 'n' || c == 'f' || c == 'r' || c == 't'
}

fn digits_end_exec(s: &Vec<char>, i: usize) -> (r: usize)
    requires
        i <= s.len(),
    ensures
        r == digits_end(s@, i as int),
        i <= r <= s.len(),
        (i < s.len() && is_digit(s@[i as int])) ==> i < r,
{
    let mut k = i;
    while k < s.len() && is_digit_c(s[k])
        invariant
            i <= k <= s.len(),
            digits_end(s@, i as int) == digits_end(s@, k as int),
        decreases s.len() - k,
    {
        k = k + 1;
    }
    k
}

fn ident_end_exec(s: &Vec<char>, i: usize) -> (r: usize)
    requires
        i <= s.len(),
    ensures
        r == ident_end(s@, i as int),
        i <= r <= s.len(),
{
    let mut k = i;
    while k < s.len() && is_ident_char_c(s[k])
        invariant
            i <= k <= s.len(),
            ident_end(s@, i as int) == ident_end(s@, k as int),
        decreases s.len() - k,
    {
        k = k + 1;
    }
    k
}

fn line_end_exec(s: &Vec<char>, i: usize) -> (r: usize)
    requires
        i <= s.len(),
    ensures
        r == line_end(s@, i as int),
        i <= r <= s.len(),
{
    let mut k = i;
    while k < s.len() && s[k] != '\n'
        invariant
            i <= k <= s.len(),
            line_end(s@, i as int) == line_end(s@, k as int),
        decreases s.len() - k,
    {
        k = k + 1;
    }
    k
}

fn string_end_exec(s: &Vec<char>, i: usize) -> (r: Option<usize>)
    requires
        i <= s.len(),
    ensures
        match r {
            Some(q) => string_end(s@, i as int) == Some(q as int) && i <= q < s.len(),
            None => string_end(s@, i as int) is None,
        },
{
    let mut k = i;
    while k < s.len()
        invariant
            i <= k <= s.len(),
            string_end(s@, i as int) == string_end(s@, k as int),
        decreases s.len() - k,
    {
        if s[k] == '"' {
            return Some(k);
        } else if s[k] == '\\' {
            if k + 1 < s.len() && is_escape_c(s[k + 1]) {
                k = k + 2;
            } else {
                return None;
            }
        } else {
            k = k + 1;
        }
    }
    None
}

proof fn lemma_digits_value_mono(s: Seq<char>, i: int, j: int, k: int)
    requires
        i <= j <= k,
        forall|m: int| i <= m < k ==> is_digit(#[trigger] s[m]),
    ensures
        digits_value(s, i, j) <= digits_value(s, i, k),
        0 <= digits_value(s, i, j),
    decreases k - i,
{
    if j < k {
        lemma_digits_value_mono(s, i, j, k - 1);
    } else if i < j {
        lemma_digits_value_mono(s, i, j - 1, j - 1);
    }
}

fn digit_value_c(c: char) -> (r: u8)
    requires
        is_digit(c),
    ensures
        r as int == digit_val(c),
        r < 10,
{
    (c as u32 - 48) as u8
}

/// The value of the digits `s[i..j]`, or `None` when it exceeds `i64::MAX`.
fn digits_value_exec(s: &Vec<char>, i: usize, j: usize) -> (r: Option<i64>)
    requires
        i <= j <= s.len(),
        forall|m: int| i <= m < j ==> is_digit(#[trigger] s@[m]),
    ensures
        match r {
            Some(v) => v as int == digits_value(s@, i as int, j as int),
            None => digits_value(s@, i as int, j as int) > i64::MAX,
        },
{
    let mut v: i64 = 0;
    let mut k = i;
    while k < j
        invariant
            i <= k <= j <= s.len(),
            forall|m: int| i <= m < j ==> is_digit(#[trigger] s@[m]),
            v as int == digits_value(s@, i as int, k as int),
            0 <= v,
        decreases j - k,
    {
        let d = digit_value_c(s[k]);
        if v > (i64::MAX - d as i64) / 10 {
            proof {
                lemma_digits_value_mono(s@, i as int, k as int + 1, j as int);
                assert(digits_value(s@, i as int, k as int + 1) == v * 10 + d);
            }
            return None;
        }
        v = v * 10 + d as i64;
        k = k + 1;
    }
    Some(v)
}

fn skip_zeros_exec(s: &Vec<char>, i: usize, j: usize) -> (r: usize)
    requires
        i <= j <= s.len(),
    ensures
        r == skip_zeros(s@, i as int, j as int),
        i <= r <= j,
{
    let mut k = i;
    while k < j && s[k] == '0'
        invariant
            i <= k <= j <= s.len(),
            skip_zeros(s@, i as int, j as int) == skip_zeros(s@, k as int, j as int),
        decreases j - k,
    {
        k = k + 1;
    }
    k
}

fn trim_zeros_exec(s: &Vec<char>, i: usize, j: usize) -> (r: usize)
    requires
        i <= j <= s.len(),
    ensures
        r == trim_zeros(s@, i as int, j as int),
        i <= r <= j,
{
    let mut k = j;
    while k > i && s[k - 1] == '0'
        invariant
            i <= k <= j <= s.len(),
            trim_zeros(s@, i as int, j as int) == trim_zeros(s@, i as int, k as int),
        decreases k - i,
    {
        k = k - 1;
    }
    k
}

/// Appends `s[a..b]` to `out`.
fn push_range(out: &mut String, s: &Vec<char>, a: usize, b: usize)
    requires
        a <= b <= s.len(),
    ensures
        final(out)@ == old(out)@ + s@.subrange(a as int, b as int),
{
    let mut k = a;
    while k < b
        invariant
            a <= k <= b <= s.len(),
            out@ == old(out)@ + s@.subrange(a as int, k as int),
        decreases b - k,
    {
        push_char(out, s[k]);
        assert(s@.subrange(a as int, k as int + 1) =~= s@.subrange(a as int, k as int).push(s@[k as int]));
        k = k + 1;
    }
}

fn float_text_exec(s: &Vec<char>, a: usize, d: usize, f: usize) -> (r: String)
    requires
        a <= d < f <= s.len(),
    ensures
        r@ == float_text(s@, a as int, d as int, f as int),
{
    let p = skip_zeros_exec(s, a, d);
    let mut out = String::new();
    if p == d {
        push_char(&mut out, '0');
    } else {
        push_range(&mut out, s, p, d);
    }
    let ghost ip = out@;
    assert(ip =~= (if p == d { seq!['0'] } else { s@.subrange(p as int, d as int) }));
    let q = trim_zeros_exec(s, d + 1, f);
    if q != d + 1 {
        push_char(&mut out, '.');
        push_range(&mut out, s, d + 1, q);
        assert(out@ =~= ip.push('.') + s@.subrange(d as int + 1, q as int));
    }
    out
}

/// Whether `s[a..b]` spells the word `k`.
pub fn range_is(s: &Vec<char>, a: usize, b: usize, k: &str) -> (r: bool)
    requires
        a <= b <= s.len(),
    ensures
        r == (s@.subrange(a as int, b as int) == k@),
{
    let n = k.unicode_len();
    if b - a != n {
        return false;
    }
    let mut m: usize = 0;
    while m < n
        invariant
            m <= n,
            n == k@.len(),
            b - a == n,
            a <= b <= s.len(),
            forall|x: int| 0 <= x < m ==> s@[a + x] == k@[x],
        decreases n - m,
    {
        if s[a + m] != k.get_char(m) {
            assert(s@.subrange(a as int, b as int)[m as int] != k@[m as int]);
            return false;
        }
        m = m + 1;
    }
    assert(s@.subrange(a as int, b as int) =~= k@);
    true
}

fn word_token_exec(s: &Vec<char>, a: usize, b: usize) -> (r: Token)
    requires
        a <= b <= s.len(),
    ensures
        r@ == word_token(s@.subrange(a as int, b as int)),
{
    if range_is(s, a, b, "let") {
        Token::Let
    } else if range_is(s, a, b, "if") {
        Token::If
    } else if range_is(s, a, b, "else") {
        Token::Else
    } else if range_is(s, a, b, "loop") {
        Token::Loop
    } else if range_is(s, a, b, "break") {
        Token::Break
    } else if range_is(s, a, b, "fn") {
        Token::Fn
    } else if range_is(s, a, b, "return") {
        Token::Return
    } else if range_is(s, a, b, "yield") {
        Token::Yield
    } else if range_is(s, a, b, "spawn") {
        Token::Spawn
    } else if range_is(s, a, b, "join") {
        Token::Join
    } else if range_is(s, a, b, "wait") {
        Token::Wait
    } else if range_is(s, a, b, "post") {
        Token::Post
    } else if range_is(s, a, b, "true") {
        Token::Bool(true)
    } else if range_is(s, a, b, "false") {
        Token::Bool(false)
    } else {
        let mut w = String::new();
        push_range(&mut w, s, a, b);
        assert(w@ =~= s@.subrange(a as int, b as int));
        Token::Ident(w)
    }
}

fn single_token_exec(c: char) -> (r: Option<Token>)
    ensures
        match r {
            Some(t) => single_token(c) == Some(t@),
            None => single_token(c) is None,
        },
{
    if c == ';' { Some(Token::Semi) }
    else if c == ':' { Some(Token::Colon) }
    else if c == '.' { Some(Token::Dot) }
    else if c == ',' { Some(Token::Comma) }
    else if c == '(' { Some(Token::OpenParen) }
    else if c == ')' { Some(Token::CloseParen) }
    else if c == '{' { Some(Token::OpenBrace) }
    else if c == '}' { Some(Token::CloseBrace) }
    else if c == '[' { Some(Token::OpenBracket) }
    else if c == ']' { Some(Token::CloseBracket) }
    else if c == '@' { Some(Token::At) }
    else if c == '#' { Some(Token::Pound) }
    else if c == '~' { Some(Token::Tilde) }
    else if c == '?' { Some(Token::Question) }
    else if c == '$' { Some(Token::Dollar) }
    else if c == '=' { Some(Token::Eq) }
    else if c == '!' { Some(Token::Bang) }
    else if c == '<' { Some(Token::Lt) }
    else if c == '>' { Some(Token::Gt) }
    else if c == '-' { Some(Token::Minus) }
    else if c == '&' { Some(Token::And) }
    else if c == '|' { Some(Token::Or) }
    else if c == '+' { Some(Token::Plus) }
    else if c == '*' { Some(Token::Star) }
    else if c == '/' { Some(Token::Slash) }
    else if c == '^' { Some(Token::Caret) }
    else if c == '%' { Some(Token::Percent) }
    else { None }
}

/// One step of the lexer at index `i`.
fn lex_step_exec(s: &Vec<char>, i: usize) -> (r: Step)
    requires
        i < s.len(),
    ensures
        step_matches(r, lex_step(s@, i as int)),
        match r {
            Step::Skip(j) => i < j <= s.len(),
            Step::Tok(_, j) => i < j <= s.len(),
            Step::Fail => true,
        },
{
    let c = s[i];
    let has_next = i + 1 < s.len();
    if is_ws_c(c) {
        Step::Skip(i + 1)
    } else if c == '/' && has_next && s[i + 1] == '/' {
        let e = line_end_exec(s, i + 1);
        assert(line_end(s@, i as int) == line_end(s@, i as int + 1));
        Step::Skip(e)
    } else if is_ident_start_c(c) {
        let e = ident_end_exec(s, i + 1);
        Step::Tok(word_token_exec(s, i, e), e)
    } else if is_digit_c(c) || (c == '.' && has_next && is_digit_c(s[i + 1])) {
        let e = digits_end_exec(s, i);
        if s.len() - e > 1 && s[e] == '.' && is_digit_c(s[e + 1]) {
            let f = digits_end_exec(s, e + 1);
            let txt = float_text_exec(s, i, e, f);
            Step::Tok(Token::Float(FloatLit { text: txt }), f)
        } else {
            proof {
                lemma_digits_run(s@, i as int);
            }
            match digits_value_exec(s, i, e) {
                Some(v) => Step::Tok(Token::Integer(v), e),
                None => Step::Fail,
            }
        }
    } else if c == '"' {
        match string_end_exec(s, i + 1) {
            Some(q) => {
                let mut body = String::new();
                push_range(&mut body, s, i + 1, q);
                assert(body@ =~= s@.subrange(i as int + 1, q as int));
                Step::Tok(Token::String(body), q + 1)
            },
            None => Step::Fail,
        }
    } else if c == '=' && has_next && s[i + 1] == '=' {
        Step::Tok(Token::LogEq, i + 2)
    } else if c == '&' && has_next && s[i + 1] == '&' {
        Step::Tok(Token::LogAnd, i + 2)
    } else if c == '|' && has_next && s[i + 1] == '|' {
        Step::Tok(Token::LogOr, i + 2)
    } else if c == '-' && has_next && s[i + 1] == '>' {
        Step::Tok(Token::FnDeclReturn, i + 2)
    } else {
        match single_token_exec(c) {
            Some(t) => Step::Tok(t, i + 1),
            None => Step::Fail,
        }
    }
}

/// Every character of the digit run that starts at `i` is a digit.
proof fn lemma_digits_run(s: Seq<char>, i: int)
    requires
        0 <= i <= s.len(),
    ensures
        i <= digits_end(s, i) <= s.len(),
        forall|m: int| i <= m < digits_end(s, i) ==> is_digit(#[trigger] s[m]),
    decreases s.len() - i,
{
    if i < s.len() && is_digit(s[i]) {
        lemma_digits_run(s, i + 1);
    }
}

/// Lexes a whole text. The result is the token sequence that `lex_spec`
/// gives, or `None` exactly when some part of the text matches no token
/// (an unknown character, an unterminated string or a bad escape, or an
/// integer literal above `i64::MAX`).
pub fn lex(inp: &str) -> (r: Option<Vec<Token>>)
    ensures
        match r {
            Some(v) => lex_spec(inp@) == Some(tokens_view(v@)),
            None => lex_spec(inp@) is None,
        },
{
    let s = chars_of(inp);
    lex_chars(&s)
}

/// Lexes a character sequence; see `lex`.
pub fn lex_chars(s: &Vec<char>) -> (r: Option<Vec<Token>>)
    ensures
        match r {
            Some(v) => lex_spec(s@) == Some(tokens_view(v@)),
            None => lex_spec(s@) is None,
        },
{
    let mut toks: Vec<Token> = Vec::new();
    let mut i: usize = 0;
    while i < s.len()
        invariant
            i <= s.len(),
            lex_spec(s@) == (match lex_from(s@, i as int) {
                Some(rest) => Some(tokens_view(toks@) + rest),
                None => None::<Seq<SToken>>,
            }),
        decreases s.len() - i,
    {
        let st = lex_step_exec(s, i);
        match st {
            Step::Skip(j) => {
                i = j;
            },
            Step::Tok(t, j) => {
                let ghost old_toks = toks@;
                toks.push(t);
                proof {
                    assert(tokens_view(toks@) =~= tokens_view(old_toks) + seq![toks@.last()@]);
                    match lex_from(s@, j as int) {
                        Some(rest) => {
                            assert(tokens_view(old_toks) + (seq![toks@.last()@] + rest) =~= tokens_view(toks@) + rest);
                        },
                        None => {},
                    }
                }
                i = j;
            },
            Step::Fail => {
                return None;
            },
        }
    }
    assert(tokens_view(toks@) + Seq::<SToken>::empty() =~= tokens_view(toks@));
    Some(toks)
}

/// The body of a string literal: characters other than a quote or a
/// backslash, and escapes, each a backslash followed by one of `"`, `\`,
/// `b`, `n`, `f`, `r`, `t`.
pub open spec fn string_body_ok(b: Seq<char>) -> bool
    decreases b.len(),
{
    if b.len() == 0 {
        true
    } else if b[0] == '\\' {
        &&& b.len() >= 2
        &&& (b[1] == '"' || b[1] == '\\' || b[1] == 'b' || b[1] == 'n' || b[1] == 'f' || b[1] == 'r' || b[1] == 't')
        &&& string_body_ok(b.subrange(2, b.len() as int))
    } else {
        b[0] != '"' && string_body_ok(b.subrange(1, b.len() as int))
    }
}

proof fn lemma_string_end_of_body(s: Seq<char>, i: int)
    requires
        1 <= i <= s.len() - 1,
        s[s.len() - 1] == '"',
        string_body_ok(s.subrange(i, s.len() - 1)),
    ensures
        string_end(s, i) == Some(s.len() - 1),
    decreases s.len() - i,
{
    let b = s.subrange(i, s.len() - 1);
    if i < s.len() - 1 {
        assert(b[0] == s[i]);
        if s[i] == '\\' {
            assert(b[1] == s[i + 1]);
            assert(b.subrange(2, b.len() as int) =~= s.subrange(i + 2, s.len() - 1));
            lemma_string_end_of_body(s, i + 2);
        } else {
            assert(b.subrange(1, b.len() as int) =~= s.subrange(i + 1, s.len() - 1));
            lemma_string_end_of_body(s, i + 1);
        }
    }
}

/// Law: a string literal whose body is made of plain characters and the
/// escapes `\"`, `\\`, `\b`, `\n`, `\f`, `\r`, `\t` lexes to one string token
/// that holds the body unchanged.
pub proof fn law_string_literal(b: Seq<char>)
    requires
        string_body_ok(b),
    ensures
        lex_spec(seq!['"'] + b + seq!['"']) == Some(seq![SToken::Str(b)]),
{
    let s = seq!['"'] + b + seq!['"'];
    assert(s.subrange(1, s.len() - 1) =~= b);
    lemma_string_end_of_body(s, 1);
    assert(s[0] == '"');
    assert(lex_step(s, 0) == LexStep::Tok(SToken::Str(b), s.len() as int));
    assert(lex_from(s, s.len() as int) == Some(Seq::<SToken>::empty()));
    assert(seq![SToken::Str(b)] + Seq::<SToken>::empty() =~= seq![SToken::Str(b)]);
}

} // verus!
