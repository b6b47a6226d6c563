//! What scanning means, stated over the source as a sequence of characters.
//!
//! The source is cut into units, left to right. Each unit starts at a lead
//! character and yields at most one token and at most one diagnostic; the
//! next unit starts where the previous one ended. After the last unit comes
//! one `EndOfInput` token.

use vstd::prelude::*;
use crate::classify::{alpha_char, alphanumeric_char, digit_char};
use crate::diagnostic::{ScanErrorKind, ScanErrorView};
use crate::token::{keyword_kind, TokenKind, TokenView};

verus! {

/// The character at `i`, or NUL past either end.
pub open spec fn char_at(src: Seq<char>, i: int) -> char {
    if 0 <= i < src.len() {
        src[i]
    } else {
        '\0'
    }
}

/// The number of newline characters in `s`.
pub open spec fn newlines(s: Seq<char>) -> nat
    decreases s.len(),
{
    if s.len() == 0 {
        0
    } else {
        newlines(s.drop_last()) + if s.last() == '\n' {
            1nat
        } else {
            0nat
        }
    }
}

/// The 1-based line of position `p`: one more than the newlines before it.
pub open spec fn line_at(src: Seq<char>, p: int) -> int {
    1 + newlines(src.subrange(0, p)) as int
}

/// The end of the longest run of characters satisfying `p` that starts at `i`.
pub open spec fn run_end(src: Seq<char>, i: int, p: spec_fn(char) -> bool) -> int
    decreases src.len() - i,
{
    if 0 <= i < src.len() && p(src[i]) {
        run_end(src, i + 1, p)
    } else {
        i
    }
}

pub open spec fn not_quote(c: char) -> bool {
    c != '"'
}

pub open spec fn not_newline(c: char) -> bool {
    c != '\n'
}

pub open spec fn digits_end(src: Seq<char>, i: int) -> int {
    run_end(src, i, |c: char| digit_char(c))
}

/// The end of a number whose integer part continues at `i`: the digits, and
/// a fraction only where a digit follows the dot.
pub open spec fn number_end(src: Seq<char>, i: int) -> int {
    let e = digits_end(src, i);
    if char_at(src, e) == '.' && digit_char(char_at(src, e + 1)) {
        digits_end(src, e + 1)
    } else {
        e
    }
}

pub open spec fn operator_lead(c: char) -> bool {
    c == '!' || c == '=' || c == '<' || c == '>'
}

pub open spec fn whitespace_char(c: char) -> bool {
    c == ' ' || c == '\r' || c == '\t' || c == '\n'
}

/// The kind of a single-character punctuation token led by `c`.
pub open spec fn punct_kind(c: char) -> Option<TokenKind> {
    if c == '(' {
        Some(TokenKind::LeftParen)
    } else if c == ')' {
        Some(TokenKind::RightParen)
    } else if c == '{' {
        Some(TokenKind::LeftBrace)
    } else if c == '}' {
        Some(TokenKind::RightBrace)
    } else if c == ',' {
        Some(TokenKind::Comma)
    } else if c == '.' {
        Some(TokenKind::Dot)
    } else if c == '-' {
        Some(TokenKind::Minus)
    } else if c == '+' {
        Some(TokenKind::Plus)
    } else if c == ';' {
        Some(TokenKind::Semicolon)
    } else if c == '*' {
        Some(TokenKind::Star)
    } else {
        None
    }
}

/// The kind of the operator led by `c` (one of `! = < >`), with or without
/// a following `=`.
pub open spec fn operator_kind(c: char, with_equal: bool) -> TokenKind {
    if c == '!' {
        if with_equal { TokenKind::BangEqual } else { TokenKind::Bang }
    } else if c == '=' {
        if with_equal { TokenKind::EqualEqual } else { TokenKind::Equal }
    } else if c == '<' {
        if with_equal { TokenKind::LessEqual } else { TokenKind::Less }
    } else {
        if with_equal { TokenKind::GreaterEqual } else { TokenKind::Greater }
    }
}

/// Where the unit that starts at `s` ends.
pub open spec fn unit_end(src: Seq<char>, s: int) -> int {
    let c = char_at(src, s);
    if operator_lead(c) {
        if char_at(src, s + 1) == '=' { s + 2 } else { s + 1 }
    } else if c == '/' {
        if char_at(src, s + 1) == '/' {
            run_end(src, s + 2, |c: char| not_newline(c))
        } else {
            s + 1
        }
    } else if c == '"' {
        let q = run_end(src, s + 1, |c: char| not_quote(c));
        if q < src.len() { q + 1 } else { q }
    } else if digit_char(c) {
        number_end(src, s + 1)
    } else if alpha_char(c) {
        run_end(src, s + 1, |c: char| alphanumeric_char(c))
    } else {
        s + 1
    }
}

/// The kind of the token that the unit at `s` yields, if it yields one.
pub open spec fn unit_kind(src: Seq<char>, s: int) -> Option<TokenKind> {
    let c = char_at(src, s);
    if punct_kind(c) is Some {
        punct_kind(c)
    } else if operator_lead(c) {
        Some(operator_kind(c, char_at(src, s + 1) == '='))
    } else if c == '/' {
        if char_at(src, s + 1) == '/' { None } else { Some(TokenKind::Slash) }
    } else if c == '"' {
        Some(TokenKind::String)
    } else if digit_char(c) {
        Some(TokenKind::Number)
    } else if alpha_char(c) {
        match keyword_kind(src.subrange(s, unit_end(src, s))) {
            Some(k) => Some(k),
            None => Some(TokenKind::Identifier),
        }
    } else {
        None
    }
}

/// The tokens (none or one) that the unit at `s` yields.
pub open spec fn unit_tokens(src: Seq<char>, s: int) -> Seq<TokenView> {
    match unit_kind(src, s) {
        Some(k) => seq![TokenView { kind: k, lexeme: src.subrange(s, unit_end(src, s)), line: line_at(src, s) }],
        None => seq![],
    }
}

/// Whether `c` leads some unit that is not an error.
pub open spec fn known_lead(c: char) -> bool {
    punct_kind(c) is Some || operator_lead(c) || c == '/' || c == '"' || whitespace_char(c)
        || digit_char(c) || alpha_char(c)
}

/// The diagnostics (none or one) that the unit at `s` yields.
pub open spec fn unit_errors(src: Seq<char>, s: int) -> Seq<ScanErrorView> {
    let c = char_at(src, s);
    if !known_lead(c) {
        seq![ScanErrorView { line: line_at(src, s), kind: ScanErrorKind::UnexpectedCharacter }]
    } else if c == '"' && run_end(src, s + 1, |c: char| not_quote(c)) >= src.len() {
        seq![ScanErrorView { line: line_at(src, src.len() as int), kind: ScanErrorKind::UnterminatedString }]
    } else {
        seq![]
    }
}

/// The end-of-input token of `src`.
pub open spec fn end_token(src: Seq<char>) -> TokenView {
    TokenView { kind: TokenKind::EndOfInput, lexeme: seq![], line: line_at(src, src.len() as int) }
}

/// The tokens of `src` from the unit at `pos` on, end-of-input token included.
pub open spec fn tokens_from(src: Seq<char>, pos: int) -> Seq<TokenView>
    decreases src.len() - pos,
{
    if 0 <= pos < src.len() {
        proof {
            lemma_unit_end(src, pos);
        }
        unit_tokens(src, pos) + tokens_from(src, unit_end(src, pos))
    } else {
        seq![end_token(src)]
    }
}

/// The diagnostics of `src` from the unit at `pos` on.
pub open spec fn errors_from(src: Seq<char>, pos: int) -> Seq<ScanErrorView>
    decreases src.len() - pos,
{
    if 0 <= pos < src.len() {
        proof {
            lemma_unit_end(src, pos);
        }
        unit_errors(src, pos) + errors_from(src, unit_end(src, pos))
    } else {
        seq![]
    }
}

/// The tokens of the whole of `src`.
pub open spec fn scan(src: Seq<char>) -> Seq<TokenView> {
    tokens_from(src, 0)
}

/// The diagnostics of the whole of `src`.
pub open spec fn scan_errors(src: Seq<char>) -> Seq<ScanErrorView> {
    errors_from(src, 0)
}

/// The source spans `[start, end)` of the tokens from the unit at `pos` on,
/// end-of-input token excluded.
pub open spec fn spans_from(src: Seq<char>, pos: int) -> Seq<(int, int)>
    decreases src.len() - pos,
{
    if 0 <= pos < src.len() {
        proof {
            lemma_unit_end(src, pos);
        }
        let e = unit_end(src, pos);
        if unit_kind(src, pos) is Some {
            seq![(pos, e)] + spans_from(src, e)
        } else {
            spans_from(src, e)
        }
    } else {
        seq![]
    }
}

/// The source spans of the tokens of `src`, end-of-input token excluded.
pub open spec fn token_spans(src: Seq<char>) -> Seq<(int, int)> {
    spans_from(src, 0)
}

/// The spans `[start, end)` of every unit from `pos` on, whether or not it
/// yields a token.
pub open spec fn units_from(src: Seq<char>, pos: int) -> Seq<(int, int)>
    decreases src.len() - pos,
{
    if 0 <= pos < src.len() {
        proof {
            lemma_unit_end(src, pos);
        }
        let e = unit_end(src, pos);
        seq![(pos, e)] + units_from(src, e)
    } else {
        seq![]
    }
}

/// The spans of every unit of `src`.
pub open spec fn units(src: Seq<char>) -> Seq<(int, int)> {
    units_from(src, 0)
}

/// A unit that yields no token: one whitespace character, one character
/// that leads nothing, or a line comment up to (not including) the newline.
pub open spec fn dropped_unit(src: Seq<char>, s: int, e: int) -> bool {
    ||| whitespace_char(src[s]) && e == s + 1
    ||| !known_lead(src[s]) && e == s + 1
    ||| {
        &&& src[s] == '/' && char_at(src, s + 1) == '/'
        &&& forall|k: int| s <= k < e ==> #[trigger] src[k] != '\n'
        &&& e == src.len() || src[e] == '\n'
    }
}

/// A run ends within the source, at or after its start, at a character
/// outside the class, and holds only characters of the class.
pub proof fn lemma_run_end(src: Seq<char>, i: int, p: spec_fn(char) -> bool)
    requires
        0 <= i <= src.len(),
    ensures
        i <= run_end(src, i, p) <= src.len(),
        run_end(src, i, p) < src.len() ==> !p(src[run_end(src, i, p)]),
        forall|k: int| i <= k < run_end(src, i, p) ==> p(#[trigger] src[k]),
    decreases src.len() - i,
{
    if i < src.len() && p(src[i]) {
        lemma_run_end(src, i + 1, p);
    }
}

/// Every unit consumes at least its lead character and stays within the source.
pub proof fn lemma_unit_end(src: Seq<char>, s: int)
    requires
        0 <= s < src.len(),
    ensures
        s < unit_end(src, s) <= src.len(),
{
    let c = src[s];
    if c == '/' && char_at(src, s + 1) == '/' {
        lemma_run_end(src, s + 2, |c: char| not_newline(c));
    } else if c == '"' {
        lemma_run_end(src, s + 1, |c: char| not_quote(c));
    } else if digit_char(c) {
        let e = digits_end(src, s + 1);
        lemma_run_end(src, s + 1, |c: char| digit_char(c));
        if char_at(src, e) == '.' && digit_char(char_at(src, e + 1)) {
            lemma_run_end(src, e + 1, |c: char| digit_char(c));
        }
    } else if alpha_char(c) {
        lemma_run_end(src, s + 1, |c: char| alphanumeric_char(c));
    }
}

/// Moving one character forward adds one line exactly where that character
/// is a newline.
pub proof fn lemma_line_step(src: Seq<char>, p: int)
    requires
        0 <= p < src.len(),
    ensures
        line_at(src, p + 1) == line_at(src, p) + if src[p] == '\n' { 1int } else { 0int },
{
    assert(src.subrange(0, p + 1).drop_last() =~= src.subrange(0, p));
}

/// A sequence has no more newlines than characters.
pub proof fn lemma_newlines_bound(s: Seq<char>)
    ensures
        newlines(s) <= s.len(),
    decreases s.len(),
{
    if s.len() > 0 {
        lemma_newlines_bound(s.drop_last());
    }
}

} // verus!
