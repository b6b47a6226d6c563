//! General properties of scanning, proved over the model that the scanner
//! is verified against.

use vstd::prelude::*;
use crate::classify::{alpha_char, alphanumeric_char, digit_char};
use crate::model::{
    char_at, digits_end, end_token, lemma_line_step, lemma_run_end, lemma_unit_end, line_at,
    dropped_unit, newlines, not_newline, number_end, operator_kind, operator_lead, scan, spans_from,
    token_spans, tokens_from, unit_end, unit_kind, units, units_from,
};
use crate::token::{keyword_kind, TokenKind};

verus! {

/// Lines never go down as the position moves right.
pub proof fn lemma_line_monotone(src: Seq<char>, p: int, q: int)
    requires
        0 <= p <= q <= src.len(),
    ensures
        line_at(src, p) <= line_at(src, q),
    decreases q - p,
{
    if p < q {
        lemma_line_step(src, q - 1);
        lemma_line_monotone(src, p, q - 1);
    }
}

/// The facts about the tokens from the unit at `pos` on, by induction over
/// the units.
proof fn lemma_tokens_from(src: Seq<char>, pos: int)
    requires
        0 <= pos <= src.len(),
    ensures
        ({
            let ts = tokens_from(src, pos);
            let sp = spans_from(src, pos);
            &&& ts.len() == sp.len() + 1
            &&& ts.last() == end_token(src)
            &&& forall|i: int|
                0 <= i < sp.len() ==> {
                    &&& pos <= #[trigger] sp[i].0 < sp[i].1 <= src.len()
                    &&& sp[i].1 == unit_end(src, sp[i].0)
                    &&& unit_kind(src, sp[i].0) == Some(ts[i].kind)
                    &&& ts[i].kind != TokenKind::EndOfInput
                    &&& ts[i].lexeme == src.subrange(sp[i].0, sp[i].1)
                    &&& ts[i].line == line_at(src, sp[i].0)
                }
            &&& forall|i: int, j: int|
                #![trigger sp[i], sp[j]]
                0 <= i < j < sp.len() ==> sp[i].1 <= sp[j].0
        }),
    decreases src.len() - pos,
{
    if pos < src.len() {
        lemma_unit_end(src, pos);
        let e = unit_end(src, pos);
        lemma_tokens_from(src, e);
        let rest = spans_from(src, e);
        let ts = tokens_from(src, pos);
        let sp = spans_from(src, pos);
        if unit_kind(src, pos) is Some {
            assert(unit_kind(src, pos) != Some(TokenKind::EndOfInput));
            assert forall|i: int, j: int|
                #![trigger sp[i], sp[j]]
                0 <= i < j < sp.len() implies sp[i].1 <= sp[j].0 by {
                if i > 0 {
                    assert(sp[i] == rest[i - 1]);
                    assert(sp[j] == rest[j - 1]);
                } else {
                    assert(sp[j] == rest[j - 1]);
                }
            }
            assert forall|i: int| 0 <= i < sp.len() implies {
                &&& pos <= #[trigger] sp[i].0 < sp[i].1 <= src.len()
                &&& sp[i].1 == unit_end(src, sp[i].0)
                &&& unit_kind(src, sp[i].0) == Some(ts[i].kind)
                &&& ts[i].kind != TokenKind::EndOfInput
                &&& ts[i].lexeme == src.subrange(sp[i].0, sp[i].1)
                &&& ts[i].line == line_at(src, sp[i].0)
            } by {
                if i > 0 {
                    assert(sp[i] == rest[i - 1]);
                    assert(ts[i] == tokens_from(src, e)[i - 1]);
                }
            }
        }
    }
}

/// The units from `pos` on tile the rest of the source.
proof fn lemma_units_from(src: Seq<char>, pos: int)
    requires
        0 <= pos <= src.len(),
    ensures
        ({
            let u = units_from(src, pos);
            &&& u.len() == 0 <==> pos == src.len()
            &&& u.len() > 0 ==> u[0].0 == pos && u.last().1 == src.len()
            &&& forall|i: int|
                0 <= i < u.len() ==> pos <= #[trigger] u[i].0 < u[i].1 <= src.len() && u[i].1
                    == unit_end(src, u[i].0)
            &&& forall|i: int| 0 <= i < u.len() - 1 ==> #[trigger] u[i].1 == u[i + 1].0
        }),
    decreases src.len() - pos,
{
    if pos < src.len() {
        lemma_unit_end(src, pos);
        let e = unit_end(src, pos);
        lemma_units_from(src, e);
        let rest = units_from(src, e);
        let u = units_from(src, pos);
        assert(u == seq![(pos, e)] + rest);
        assert forall|i: int| 0 <= i < u.len() - 1 implies #[trigger] u[i].1 == u[i + 1].0 by {
            if i > 0 {
                assert(u[i] == rest[i - 1]);
            }
        }
        assert forall|i: int| 0 <= i < u.len() implies pos <= #[trigger] u[i].0 < u[i].1
            <= src.len() && u[i].1 == unit_end(src, u[i].0) by {
            if i > 0 {
                assert(u[i] == rest[i - 1]);
            }
        }
    }
}

/// The token spans from `pos` on are the units that yield a token.
proof fn lemma_spans_are_token_units(src: Seq<char>, pos: int)
    requires
        0 <= pos <= src.len(),
    ensures
        spans_from(src, pos) == units_from(src, pos).filter(|p: (int, int)| unit_kind(src, p.0) is Some),
    decreases src.len() - pos,
{
    let pred = |p: (int, int)| unit_kind(src, p.0) is Some;
    if pos < src.len() {
        lemma_unit_end(src, pos);
        let e = unit_end(src, pos);
        lemma_spans_are_token_units(src, e);
        let rest = units_from(src, e);
        let head = seq![(pos, e)];
        assert(units_from(src, pos) == head + rest);
        Seq::filter_distributes_over_add(head, rest, pred);
        assert(head.drop_last() =~= Seq::<(int, int)>::empty());
        reveal_with_fuel(Seq::<(int, int)>::filter, 2);
        if pred((pos, e)) {
            assert(head.filter(pred) =~= head);
        } else {
            assert(head.filter(pred) =~= Seq::<(int, int)>::empty());
        }
        assert(spans_from(src, pos) =~= units_from(src, pos).filter(pred));
    }
}

/// The units tile the source: the first starts at its beginning, each
/// starts where the one before it ends, and the last ends at its end. The
/// tokens come from exactly the units that yield one, in order; each of the
/// others is a whitespace character, a character that leads nothing, or a
/// line comment. So the lexemes with the dropped units put back between
/// them give the source again.
pub proof fn lemma_units_tile_source(src: Seq<char>)
    ensures
        ({
            let u = units(src);
            &&& u.len() == 0 <==> src.len() == 0
            &&& u.len() > 0 ==> u[0].0 == 0 && u.last().1 == src.len()
            &&& forall|i: int| 0 <= i < u.len() ==> 0 <= #[trigger] u[i].0 < u[i].1 <= src.len()
            &&& forall|i: int| 0 <= i < u.len() - 1 ==> #[trigger] u[i].1 == u[i + 1].0
            &&& token_spans(src) == u.filter(|p: (int, int)| unit_kind(src, p.0) is Some)
            &&& forall|i: int|
                0 <= i < u.len() && unit_kind(src, #[trigger] u[i].0) is None ==> dropped_unit(
                    src,
                    u[i].0,
                    u[i].1,
                )
        }),
{
    lemma_units_from(src, 0);
    lemma_spans_are_token_units(src, 0);
    let u = units(src);
    assert forall|i: int| 0 <= i < u.len() && unit_kind(src, #[trigger] u[i].0) is None implies dropped_unit(
        src,
        u[i].0,
        u[i].1,
    ) by {
        let s = u[i].0;
        if src[s] == '/' && char_at(src, s + 1) == '/' {
            lemma_run_end(src, s + 2, |c: char| not_newline(c));
        }
    }
}

/// Scanning ends: the tokens end in exactly one end-of-input token, which
/// carries the line after the last character; every token before it
/// belongs to a source span.
pub proof fn lemma_single_end_of_input(src: Seq<char>)
    ensures
        scan(src).len() == token_spans(src).len() + 1,
        scan(src).last().kind == TokenKind::EndOfInput,
        scan(src).last().lexeme.len() == 0,
        scan(src).last().line == line_at(src, src.len() as int),
        forall|i: int| 0 <= i < scan(src).len() - 1 ==> #[trigger] scan(src)[i].kind != TokenKind::EndOfInput,
{
    lemma_tokens_from(src, 0);
    assert forall|i: int| 0 <= i < scan(src).len() - 1 implies #[trigger] scan(src)[i].kind
        != TokenKind::EndOfInput by {
        assert(token_spans(src)[i].0 >= 0);
    }
}

/// Each token but the last is the exact source text of its span; the spans
/// lie within the source, in order and without overlap, so that the
/// lexemes, with the dropped text between them put back, give the source.
pub proof fn lemma_lexemes_are_source_text(src: Seq<char>)
    ensures
        forall|i: int|
            0 <= i < token_spans(src).len() ==> {
                &&& 0 <= #[trigger] token_spans(src)[i].0 < token_spans(src)[i].1 <= src.len()
                &&& scan(src)[i].lexeme == src.subrange(token_spans(src)[i].0, token_spans(src)[i].1)
            },
        forall|i: int, j: int|
            #![trigger token_spans(src)[i], token_spans(src)[j]]
            0 <= i < j < token_spans(src).len() ==> token_spans(src)[i].1 <= token_spans(src)[j].0,
{
    lemma_tokens_from(src, 0);
}

/// A token's line is one more than the newlines before its first character,
/// and lines never go down along the tokens.
pub proof fn lemma_lines(src: Seq<char>)
    ensures
        forall|i: int|
            0 <= i < token_spans(src).len() ==> scan(src)[i].line == 1 + newlines(
                src.subrange(0, #[trigger] token_spans(src)[i].0),
            ),
        forall|i: int, j: int|
            0 <= i <= j < scan(src).len() ==> #[trigger] scan(src)[i].line <= #[trigger] scan(src)[j].line,
{
    lemma_tokens_from(src, 0);
    let sp = token_spans(src);
    let ts = scan(src);
    assert forall|i: int, j: int| 0 <= i <= j < ts.len() implies #[trigger] ts[i].line
        <= #[trigger] ts[j].line by {
        if i < j {
            assert(sp[i].0 >= 0);
            if j < sp.len() {
                assert(sp[j].0 >= 0);
                lemma_line_monotone(src, sp[i].0, sp[j].0);
            } else {
                lemma_line_monotone(src, sp[i].0, src.len() as int);
            }
        }
    }
}

/// A token led by `!`, `=`, `<` or `>` takes the `=` that follows it, when
/// there is one, as a two-character operator; otherwise it is the
/// one-character operator alone.
pub proof fn lemma_operator_greedy(src: Seq<char>, i: int)
    requires
        0 <= i < token_spans(src).len(),
        operator_lead(src[token_spans(src)[i].0]),
    ensures
        ({
            let s = token_spans(src)[i].0;
            let with_equal = char_at(src, s + 1) == '=';
            &&& scan(src)[i].kind == operator_kind(src[s], with_equal)
            &&& scan(src)[i].lexeme == if with_equal {
                seq![src[s], '=']
            } else {
                seq![src[s]]
            }
        }),
{
    lemma_tokens_from(src, 0);
    let s = token_spans(src)[i].0;
    if char_at(src, s + 1) == '=' {
        assert(src.subrange(s, s + 2) =~= seq![src[s], '=']);
    } else {
        assert(src.subrange(s, s + 1) =~= seq![src[s]]);
    }
}

/// A token led by a letter takes every letter and digit that follows, and
/// is the reserved word it spells exactly, or else an identifier.
pub proof fn lemma_keyword_exact(src: Seq<char>, i: int)
    requires
        0 <= i < token_spans(src).len(),
        alpha_char(src[token_spans(src)[i].0]),
    ensures
        ({
            let (s, e) = token_spans(src)[i];
            let w = scan(src)[i].lexeme;
            &&& forall|k: int| s <= k < e ==> alphanumeric_char(#[trigger] src[k])
            &&& !alphanumeric_char(char_at(src, e))
            &&& scan(src)[i].kind == match keyword_kind(w) {
                Some(k) => k,
                None => TokenKind::Identifier,
            }
        }),
{
    lemma_tokens_from(src, 0);
    let s = token_spans(src)[i].0;
    lemma_run_end(src, s + 1, |c: char| alphanumeric_char(c));
}

/// A number token is a run of digits with an optional fraction of a dot
/// and digits; it ends in a digit, so a dot with no digit after it is
/// never part of a number, and no digit follows it.
pub proof fn lemma_number_boundary(src: Seq<char>, i: int)
    requires
        0 <= i < token_spans(src).len(),
        digit_char(src[token_spans(src)[i].0]),
    ensures
        ({
            let (s, e) = token_spans(src)[i];
            &&& scan(src)[i].kind == TokenKind::Number
            &&& e == number_end(src, s + 1)
            &&& digit_char(src[e - 1])
            &&& !digit_char(char_at(src, e))
        }),
{
    lemma_tokens_from(src, 0);
    let s = token_spans(src)[i].0;
    let d = digits_end(src, s + 1);
    lemma_run_end(src, s + 1, |c: char| digit_char(c));
    if char_at(src, d) == '.' && digit_char(char_at(src, d + 1)) {
        lemma_run_end(src, d + 1, |c: char| digit_char(c));
        let f = digits_end(src, d + 1);
        assert(digit_char(src[f - 1]));
    } else if d > s + 1 {
        assert(digit_char(src[d - 1]));
    }
}

} // verus!
