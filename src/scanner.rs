//! The scanner: one left-to-right pass over a source text.

use vstd::prelude::*;
use vstd::string::StrSliceExecFns;
use crate::classify::{alpha_char, alphanumeric_char, digit_char, is_alpha, is_alphanumeric, is_digit};
use crate::diagnostic::{error, errors_view, ScanError, ScanErrorKind, ScanErrorView};
use crate::model::{
    char_at, errors_from, lemma_line_step, lemma_newlines_bound, lemma_run_end, line_at,
    digits_end, lemma_unit_end, not_newline, not_quote, operator_lead, punct_kind, run_end,
    tokens_from, unit_end, unit_errors, unit_tokens,
};
use crate::token::{keyword_kind, tokens_view, Token, TokenKind, TokenView};

verus! {

/// Relies on `String::push`: the character is appended at the end.
#[verifier::external_body]
fn push_char(s: &mut String, c: char)
    ensures
        final(s)@ == old(s)@.push(c),
{
    s.push(c);
}

/// The mathematical state of a scanner.
pub struct ScannerView {
    pub source: Seq<char>,
    pub tokens: Seq<TokenView>,
    pub errors: Seq<ScanErrorView>,
    /// where the unit being recognised starts
    pub start: int,
    /// the next character to consume
    pub current: int,
    /// the line of `current`
    pub line: int,
    /// the line of `start`
    pub start_line: int,
}

impl ScannerView {
    pub open spec fn wf(self) -> bool {
        &&& self.source.len() < usize::MAX
        &&& 0 <= self.start <= self.current <= self.source.len()
        &&& self.line == line_at(self.source, self.current)
        &&& self.start_line == line_at(self.source, self.start)
    }

    /// The text consumed since `start`.
    pub open spec fn lexeme(self) -> Seq<char> {
        self.source.subrange(self.start, self.current)
    }

    /// The state once the unit that starts at `start` has been consumed.
    pub open spec fn after_unit(self) -> ScannerView {
        let e = unit_end(self.source, self.start);
        ScannerView {
            tokens: self.tokens + unit_tokens(self.source, self.start),
            errors: self.errors + unit_errors(self.source, self.start),
            current: e,
            line: line_at(self.source, e),
            ..self
        }
    }
}

/// Scans one complete source text. Tokens and diagnostics accumulate as
/// the units of the text are consumed; `scan_tokens` runs the whole pass.
pub struct Scanner {
    source: Vec<char>,
    tokens: Vec<Token>,
    errors: Vec<ScanError>,
    start: usize,
    current: usize,
    line: usize,
    start_line: usize,
}

impl View for Scanner {
    type V = ScannerView;

    closed spec fn view(&self) -> ScannerView {
        ScannerView {
            source: self.source@,
            tokens: tokens_view(self.tokens@),
            errors: errors_view(self.errors@),
            start: self.start as int,
            current: self.current as int,
            line: self.line as int,
            start_line: self.start_line as int,
        }
    }
}

impl Scanner {
    pub fn new(source: String) -> (r: Scanner)
        requires
            source@.len() < usize::MAX,
        ensures
            r@ == (ScannerView {
                source: source@,
                tokens: seq![],
                errors: seq![],
                start: 0,
                current: 0,
                line: 1,
                start_line: 1,
            }),
            r@.wf(),
    {
        let mut chars: Vec<char> = Vec::new();
        for c in it: source.as_str().chars()
            invariant
                chars@ == it.seq().take(it.index() as int),
        {
            chars.push(c);
        }
        assert(chars@ =~= source@);
        let r = Scanner { source: chars, tokens: Vec::new(), errors: Vec::new(), start: 0, current: 0, line: 1, start_line: 1 };
        proof {
            assert(source@.subrange(0, 0) =~= Seq::<char>::empty());
            assert(tokens_view(r.tokens@) =~= seq![]);
            assert(errors_view(r.errors@) =~= seq![]);
        }
        r
    }

    /// The diagnostics recorded so far.
    pub fn errors(&self) -> (r: &Vec<ScanError>)
        ensures
            errors_view(r@) == self@.errors,
    {
        &self.errors
    }

    /// The character `offset` places past `current`, or NUL past the end.
    pub fn peek(&self, offset: usize) -> (r: char)
        requires
            self@.wf(),
        ensures
            r == char_at(self@.source, self@.current + offset),
    {
        if offset >= self.source.len() - self.current {
            '\0'
        } else {
            self.source[self.current + offset]
        }
    }

    /// Consumes the next character if it is `expected`.
    pub fn check_next(&mut self, expected: char) -> (r: bool)
        requires
            old(self)@.wf(),
            expected != '\n',
        ensures
            r == (old(self)@.current < old(self)@.source.len()
                && old(self)@.source[old(self)@.current] == expected),
            final(self)@ == (ScannerView {
                current: old(self)@.current + if r { 1int } else { 0int },
                ..old(self)@
            }),
            final(self)@.wf(),
    {
        if self.current >= self.source.len() {
            return false;
        }
        if self.source[self.current] != expected {
            return false;
        }
        proof {
            lemma_line_step(self@.source, self@.current);
        }
        self.current += 1;
        true
    }

    /// The text consumed since `start`, as a string of its own.
    pub fn get_current_string(&self) -> (r: String)
        requires
            self@.wf(),
        ensures
            r@ == self@.lexeme(),
    {
        let mut r = String::new();
        let mut i: usize = self.start;
        while i < self.current
            invariant
                self@.wf(),
                self.start <= i <= self.current,
                r@ == self@.source.subrange(self@.start, i as int),
            decreases self.current - i,
        {
            push_char(&mut r, self.source[i]);
            i += 1;
            assert(r@ =~= self@.source.subrange(self@.start, i as int));
        }
        r
    }

    /// Appends a token of `kind` over the text consumed since `start`.
    pub fn add_token(&mut self, kind: TokenKind)
        requires
            old(self)@.wf(),
        ensures
            final(self)@ == (ScannerView {
                tokens: old(self)@.tokens.push(
                    TokenView { kind, lexeme: old(self)@.lexeme(), line: old(self)@.start_line },
                ),
                ..old(self)@
            }),
            final(self)@.wf(),
    {
        let text = self.get_current_string();
        let t = Token::new(kind, text, self.start_line);
        let ghost before = self.tokens@;
        self.tokens.push(t);
        assert(tokens_view(self.tokens@) =~= tokens_view(before).push(t@));
    }

    /// Whether the text consumed since `start` is exactly `w`.
    fn lexeme_is(&self, w: &str) -> (r: bool)
        requires
            self@.wf(),
        ensures
            r == (self@.lexeme() == w@),
    {
        let n = w.unicode_len();
        if n != self.current - self.start {
            return false;
        }
        let mut i: usize = 0;
        while i < n
            invariant
                self@.wf(),
                n == w@.len(),
                n == self.current - self.start,
                0 <= i <= n,
                forall|k: int| 0 <= k < i ==> self@.source[self.start + k] == w@[k],
            decreases n - i,
        {
            if self.source[self.start + i] != w.get_char(i) {
                assert(self@.lexeme()[i as int] != w@[i as int]);
                return false;
            }
            i += 1;
        }
        assert(self@.lexeme() =~= w@);
        true
    }

    /// The reserved word spelled by the text consumed since `start`, if any.
    pub fn match_symbol(&self) -> (r: Option<TokenKind>)
        requires
            self@.wf(),
        ensures
            r == keyword_kind(self@.lexeme()),
    {
        if self.lexeme_is("and") {
            Some(TokenKind::And)
        } else if self.lexeme_is("class") {
            Some(TokenKind::Class)
        } else if self.lexeme_is("else") {
            Some(TokenKind::Else)
        } else if self.lexeme_is("false") {
            Some(TokenKind::False)
        } else if self.lexeme_is("for") {
            Some(TokenKind::For)
        } else if self.lexeme_is("fun") {
            Some(TokenKind::Fun)
        } else if self.lexeme_is("if") {
            Some(TokenKind::If)
        } else if self.lexeme_is("nil") {
            Some(TokenKind::Nil)
        } else if self.lexeme_is("or") {
            Some(TokenKind::Or)
        } else if self.lexeme_is("print") {
            Some(TokenKind::Print)
        } else if self.lexeme_is("return") {
            Some(TokenKind::Return)
        } else if self.lexeme_is("super") {
            Some(TokenKind::Super)
        } else if self.lexeme_is("this") {
            Some(TokenKind::This)
        } else if self.lexeme_is("true") {
            Some(TokenKind::True)
        } else if self.lexeme_is("let") {
            Some(TokenKind::Let)
        } else if self.lexeme_is("while") {
            Some(TokenKind::While)
        } else {
            None
        }
    }

    /// Consumes the run of identifier characters after an alphabetic lead
    /// and appends an identifier or reserved-word token.
    pub fn identifier(&mut self)
        requires
            old(self)@.wf(),
            old(self)@.current == old(self)@.start + 1,
            alpha_char(old(self)@.source[old(self)@.start]),
        ensures
            final(self)@ == old(self)@.after_unit(),
            final(self)@.wf(),
    {
        let ghost v0 = self@;
        let ghost src = self@.source;
        proof {
            lemma_run_end(src, v0.current, |c: char| alphanumeric_char(c));
        }
        while is_alphanumeric(self.peek(0))
            invariant
                src == v0.source,
                self@ == (ScannerView { current: self@.current, line: self@.line, ..v0 }),
                self@.wf(),
                v0.current <= self@.current,
                run_end(src, self@.current, |c: char| alphanumeric_char(c))
                    == run_end(src, v0.current, |c: char| alphanumeric_char(c)),
            decreases src.len() - self@.current,
        {
            proof {
                lemma_line_step(src, self@.current);
            }
            self.current += 1;
        }
        let kind = match self.match_symbol() {
            Some(k) => k,
            None => TokenKind::Identifier,
        };
        self.add_token(kind);
        assert(self@.tokens =~= v0.after_unit().tokens);
        assert(self@.errors =~= v0.after_unit().errors);
    }

    /// Consumes the rest of a number after a digit lead: more digits, then
    /// a fraction only where a digit follows the dot; appends a number token.
    pub fn number(&mut self)
        requires
            old(self)@.wf(),
            old(self)@.current == old(self)@.start + 1,
            digit_char(old(self)@.source[old(self)@.start]),
        ensures
            final(self)@ == old(self)@.after_unit(),
            final(self)@.wf(),
    {
        let ghost v0 = self@;
        let ghost src = self@.source;
        proof {
            lemma_run_end(src, v0.current, |c: char| digit_char(c));
        }
        while is_digit(self.peek(0))
            invariant
                src == v0.source,
                self@ == (ScannerView { current: self@.current, line: self@.line, ..v0 }),
                self@.wf(),
                v0.current <= self@.current,
                run_end(src, self@.current, |c: char| digit_char(c)) == digits_end(src, v0.current),
            decreases src.len() - self@.current,
        {
            proof {
                lemma_line_step(src, self@.current);
            }
            self.current += 1;
        }
        if self.peek(0) == '.' && is_digit(self.peek(1)) {
            let ghost e = self@.current;
            proof {
                lemma_line_step(src, e);
                lemma_run_end(src, e + 1, |c: char| digit_char(c));
            }
            self.current += 1;
            while is_digit(self.peek(0))
                invariant
                    src == v0.source,
                    self@ == (ScannerView { current: self@.current, line: self@.line, ..v0 }),
                    self@.wf(),
                    e < self@.current,
                    run_end(src, self@.current, |c: char| digit_char(c)) == digits_end(src, e + 1),
                decreases src.len() - self@.current,
            {
                proof {
                    lemma_line_step(src, self@.current);
                }
                self.current += 1;
            }
        }
        self.add_token(TokenKind::Number);
        assert(self@.tokens =~= v0.after_unit().tokens);
        assert(self@.errors =~= v0.after_unit().errors);
    }

    /// Consumes the rest of a string literal after its opening quote, up to
    /// and including the closing quote, or to the end of the input, where it
    /// records an unterminated string. Appends a string token either way.
    pub fn string(&mut self)
        requires
            old(self)@.wf(),
            old(self)@.current == old(self)@.start + 1,
            old(self)@.source[old(self)@.start] == '"',
        ensures
            final(self)@ == old(self)@.after_unit(),
            final(self)@.wf(),
    {
        let ghost v0 = self@;
        let ghost src = self@.source;
        proof {
            lemma_run_end(src, v0.current, |c: char| not_quote(c));
        }
        while self.current < self.source.len() && self.peek(0) != '"'
            invariant
                src == v0.source,
                self@ == (ScannerView { current: self@.current, line: self@.line, ..v0 }),
                self@.wf(),
                v0.current <= self@.current,
                run_end(src, self@.current, |c: char| not_quote(c))
                    == run_end(src, v0.current, |c: char| not_quote(c)),
            decreases src.len() - self@.current,
        {
            proof {
                lemma_line_step(src, self@.current);
                lemma_newlines_bound(src.subrange(0, self@.current + 1));
            }
            if self.peek(0) == '\n' {
                self.line += 1;
            }
            self.current += 1;
        }
        if self.current >= self.source.len() {
            self.errors.push(error(self.line, ScanErrorKind::UnterminatedString));
        } else {
            proof {
                lemma_line_step(src, self@.current);
            }
            self.current += 1;
        }
        self.add_token(TokenKind::String);
        assert(self@.tokens =~= v0.after_unit().tokens);
        assert(self@.errors =~= v0.after_unit().errors);
    }

    /// Consumes the operator led by `lead` (one of `! = < >`), taking a
    /// following `=` where there is one, and appends its token.
    fn operator(&mut self, lead: char)
        requires
            old(self)@.wf(),
            old(self)@.current == old(self)@.start + 1,
            old(self)@.source[old(self)@.start] == lead,
            operator_lead(lead),
        ensures
            final(self)@ == old(self)@.after_unit(),
            final(self)@.wf(),
    {
        let ghost v0 = self@;
        let with_equal = self.check_next('=');
        let kind = if lead == '!' {
            if with_equal { TokenKind::BangEqual } else { TokenKind::Bang }
        } else if lead == '=' {
            if with_equal { TokenKind::EqualEqual } else { TokenKind::Equal }
        } else if lead == '<' {
            if with_equal { TokenKind::LessEqual } else { TokenKind::Less }
        } else {
            if with_equal { TokenKind::GreaterEqual } else { TokenKind::Greater }
        };
        self.add_token(kind);
        assert(self@.tokens =~= v0.after_unit().tokens);
        assert(self@.errors =~= v0.after_unit().errors);
    }

    /// After `//`: consumes the rest of the line, up to but not including
    /// the newline, and appends nothing.
    fn line_comment(&mut self)
        requires
            old(self)@.wf(),
            old(self)@.current == old(self)@.start + 2,
            old(self)@.source[old(self)@.start] == '/',
            old(self)@.source[old(self)@.start + 1] == '/',
        ensures
            final(self)@ == old(self)@.after_unit(),
            final(self)@.wf(),
    {
        let ghost v0 = self@;
        let ghost src = self@.source;
        proof {
            lemma_run_end(src, v0.current, |c: char| not_newline(c));
        }
        while self.current < self.source.len() && self.peek(0) != '\n'
            invariant
                src == v0.source,
                self@ == (ScannerView { current: self@.current, line: self@.line, ..v0 }),
                self@.wf(),
                v0.current <= self@.current,
                run_end(src, self@.current, |c: char| not_newline(c))
                    == run_end(src, v0.current, |c: char| not_newline(c)),
            decreases src.len() - self@.current,
        {
            proof {
                lemma_line_step(src, self@.current);
            }
            self.current += 1;
        }
        assert(self@.tokens =~= v0.after_unit().tokens);
        assert(self@.errors =~= v0.after_unit().errors);
    }

    /// Recognises the unit that starts at `current`: consumes it, and
    /// appends the token or the diagnostic that it yields, if any.
    pub fn scan_token(&mut self)
        requires
            old(self)@.wf(),
            old(self)@.start == old(self)@.current,
            old(self)@.current < old(self)@.source.len(),
        ensures
            final(self)@ == old(self)@.after_unit(),
            final(self)@.wf(),
    {
        let ghost v0 = self@;
        let ghost src = self@.source;
        let c = self.source[self.current];
        proof {
            lemma_line_step(src, v0.current);
            lemma_newlines_bound(src.subrange(0, v0.current + 1));
        }
        self.current += 1;
        let single = if c == '(' {
            Some(TokenKind::LeftParen)
        } else if c == ')' {
            Some(TokenKind::RightParen)
        } else if c == '{' {
            Some(TokenKind::LeftBrace)
        } else if c == '}' {
            Some(TokenKind::RightBrace)
        } else if c == ',' {
            Some(TokenKind::Comma)
        } else if c == '.' {
            Some(TokenKind::Dot)
        } else if c == '-' {
            Some(TokenKind::Minus)
        } else if c == '+' {
            Some(TokenKind::Plus)
        } else if c == ';' {
            Some(TokenKind::Semicolon)
        } else if c == '*' {
            Some(TokenKind::Star)
        } else {
            None
        };
        assert(single == punct_kind(c));
        match single {
            Some(kind) => {
                self.add_token(kind);
            },
            None => {
                if c == '!' || c == '=' || c == '<' || c == '>' {
                    self.operator(c);
                } else if c == '/' {
                    if self.check_next('/') {
                        self.line_comment();
                    } else {
                        self.add_token(TokenKind::Slash);
                    }
                } else if c == '\n' {
                    self.line += 1;
                } else if c == ' ' || c == '\r' || c == '\t' {
                } else if c == '"' {
                    self.string();
                } else if is_digit(c) {
                    self.number();
                } else if is_alpha(c) {
                    self.identifier();
                } else {
                    let ghost before = self.errors@;
                    self.errors.push(error(self.line, ScanErrorKind::UnexpectedCharacter));
                    assert(errors_view(self.errors@) =~= errors_view(before).push(
                        self.errors@.last()@,
                    ));
                }
            },
        }
        assert(self@.tokens =~= v0.after_unit().tokens);
        assert(self@.errors =~= v0.after_unit().errors);
    }

    /// Scans from `current` to the end of the input and hands back every
    /// token recognised so far, followed by the end-of-input token.
    pub fn scan_tokens(&mut self) -> (r: Vec<Token>)
        requires
            old(self)@.wf(),
            old(self)@.start == old(self)@.current,
        ensures
            tokens_view(r@) == old(self)@.tokens + tokens_from(old(self)@.source, old(self)@.current),
            final(self)@.errors == old(self)@.errors + errors_from(
                old(self)@.source,
                old(self)@.current,
            ),
            final(self)@.source == old(self)@.source,
            final(self)@.current == old(self)@.source.len(),
    {
        let ghost v0 = self@;
        let ghost src = self@.source;
        while self.current < self.source.len()
            invariant
                src == v0.source,
                self@.source == src,
                self@.wf(),
                v0.tokens + tokens_from(src, v0.current) == self@.tokens + tokens_from(
                    src,
                    self@.current,
                ),
                v0.errors + errors_from(src, v0.current) == self@.errors + errors_from(
                    src,
                    self@.current,
                ),
            decreases src.len() - self@.current,
        {
            let ghost v1 = self@;
            self.start = self.current;
            self.start_line = self.line;
            self.scan_token();
            proof {
                lemma_unit_end(src, v1.current);
                assert(v1.tokens + tokens_from(src, v1.current) =~= self@.tokens + tokens_from(
                    src,
                    self@.current,
                ));
                assert(v1.errors + errors_from(src, v1.current) =~= self@.errors + errors_from(
                    src,
                    self@.current,
                ));
            }
        }
        let eof = Token::new(TokenKind::EndOfInput, String::new(), self.line);
        let ghost before = self.tokens@;
        self.tokens.push(eof);
        assert(tokens_view(self.tokens@) =~= tokens_view(before).push(eof@));
        assert(self@.tokens =~= v0.tokens + tokens_from(src, v0.current));
        let mut r: Vec<Token> = Vec::new();
        core::mem::swap(&mut r, &mut self.tokens);
        r
    }
}

} // verus!
