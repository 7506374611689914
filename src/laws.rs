//! Properties of the token stream as a whole, proved over the definition in
//! `lexer_spec` that `Tokenizer::tokenize` follows step by step.
use vstd::prelude::*;
use vstd::utf8::*;

use crate::lexer_spec::{
    buf_own, buf_push, byte_offset, escape, is_delim_at, is_string_char, lex_all, step, string_body,
    Buf, Esc, Lexeme, Step,
};
use crate::text::lemma_byte_offset_bound;
use crate::tokens::Tokenizer;

verus! {

/// A string token that the body of a string closes has the source from its
/// opening delimiter to its end as its lexeme, and ends past `i`.
proof fn lemma_body_emit(s: Seq<char>, p: int, delim: char, ml: bool, i: int, b: Buf, first: bool)
    requires
        0 <= p < i,
    ensures
        match string_body(s, p, delim, ml, i, b, first) {
            Step::Emit(Lexeme::Str { src, .. }, q) => i < q <= s.len() && src == s.subrange(p, q),
            Step::Emit(_, _) => false,
            Step::Done => false,
            _ => true,
        },
    decreases s.len() - i,
{
    if i < 0 || i >= s.len() {
    } else {
        let c = s[i];
        if c == '\n' {
            if ml {
                lemma_body_emit(s, p, delim, ml, i + 1,
                    if first { Buf::Src(i + 1) } else { buf_push(b, '\n') }, false);
            }
        } else if c == '\r' && ml && is_delim_at(s, i + 1, '\n') {
            lemma_body_emit(s, p, delim, ml, i + 2,
                if first { Buf::Src(i + 2) } else { buf_push(buf_own(b, s, i), '\n') }, false);
        } else if c == delim {
            if !ml {
            } else if !is_delim_at(s, i + 1, delim) {
                lemma_body_emit(s, p, delim, ml, i + 1, buf_push(b, delim), false);
            } else if !is_delim_at(s, i + 2, delim) {
                lemma_body_emit(s, p, delim, ml, i + 2, buf_push(buf_push(b, delim), delim), false);
            }
        } else if delim == '"' && c == '\\' {
            let b1 = buf_own(b, s, i);
            match escape(s, p, i + 1, ml) {
                Esc::Char(x, j) => if i < j <= s.len() {
                    lemma_body_emit(s, p, delim, ml, j, buf_push(b1, x), false);
                },
                Esc::Skip(j) => if i < j <= s.len() {
                    lemma_body_emit(s, p, delim, ml, j, b1, false);
                },
                Esc::Fail(_, _) => {},
            }
        } else if is_string_char(c) {
            lemma_body_emit(s, p, delim, ml, i + 1, buf_push(b, c), false);
        }
    }
}

/// While the value is still the source from `a` on, a string body without
/// backslashes or carriage returns closes with a borrowed value.
proof fn lemma_body_borrowed(
    s: Seq<char>,
    p: int,
    delim: char,
    ml: bool,
    i: int,
    a: int,
    first: bool,
)
    requires
        0 <= p <= a <= i,
        p < i,
    ensures
        match string_body(s, p, delim, ml, i, Buf::Src(a), first) {
            Step::Emit(Lexeme::Str { value, borrowed, .. }, q) => (forall|k: int|
                i <= k < q ==> s[k] != '\\' && s[k] != '\r') ==> borrowed && exists|x: int, e: int|
                p <= x <= e <= q && value == s.subrange(x, e),
            _ => true,
        },
    decreases s.len() - i,
{
    let b = Buf::Src(a);
    lemma_body_emit(s, p, delim, ml, i, b, first);
    if i < 0 || i >= s.len() {
    } else {
        let c = s[i];
        if c == '\n' {
            if ml {
                if first {
                    lemma_body_borrowed(s, p, delim, ml, i + 1, i + 1, false);
                } else {
                    lemma_body_borrowed(s, p, delim, ml, i + 1, a, false);
                }
            }
        } else if c == '\r' && ml && is_delim_at(s, i + 1, '\n') {
        } else if c == delim {
            if !ml {
                assert(s.subrange(a, i) == s.subrange(a, i));
            } else if !is_delim_at(s, i + 1, delim) {
                lemma_body_borrowed(s, p, delim, ml, i + 1, a, false);
            } else if !is_delim_at(s, i + 2, delim) {
                lemma_body_borrowed(s, p, delim, ml, i + 2, a, false);
            } else if !is_delim_at(s, i + 3, delim) {
                assert(s.subrange(a, i) == s.subrange(a, i));
            } else if !is_delim_at(s, i + 4, delim) {
                assert(s.subrange(a, i + 1) == s.subrange(a, i + 1));
            } else {
                assert(s.subrange(a, i + 2) == s.subrange(a, i + 2));
            }
        } else if delim == '"' && c == '\\' {
        } else if is_string_char(c) {
            lemma_body_borrowed(s, p, delim, ml, i + 1, a, false);
        }
    }
}

/// Every string token's lexeme is the source from where the token starts to where it ends.
pub proof fn lemma_step_string_lexeme(s: Seq<char>, p: int)
    ensures
        match step(s, p) {
            Step::Emit(Lexeme::Str { src, .. }, q) => p < q <= s.len() && src == s.subrange(p, q),
            Step::Done => p < 0 || p >= s.len(),
            _ => true,
        },
{
    if 0 <= p < s.len() && (s[p] == '\'' || s[p] == '"') {
        lemma_body_emit(s, p, s[p], true, p + 3, Buf::Src(p + 3), true);
        lemma_body_emit(s, p, s[p], false, p + 1, Buf::Src(p + 1), true);
    }
}

/// Zero copy: a string token whose source holds no backslash and no carriage
/// return has a value that is borrowed, and is a stretch of its own source.
pub proof fn lemma_zero_copy(s: Seq<char>, p: int)
    ensures
        match step(s, p) {
            Step::Emit(Lexeme::Str { value, borrowed, .. }, q) => (forall|k: int|
                p <= k < q ==> s[k] != '\\' && s[k] != '\r') ==> borrowed && exists|x: int, e: int|
                p <= x <= e <= q && value == s.subrange(x, e),
            _ => true,
        },
{
    if 0 <= p < s.len() && (s[p] == '\'' || s[p] == '"') {
        lemma_body_borrowed(s, p, s[p], true, p + 3, p + 3, true);
        lemma_body_borrowed(s, p, s[p], false, p + 1, p + 1, true);
        assert(Seq::<char>::empty() == s.subrange(p, p));
    }
}

/// Span contiguity: when the whole input from `p` tokenizes, the tokens lie
/// end to start with no gap or overlap, from `p` to the end of the source,
/// in characters and in bytes; the last one ends at the source's byte length.
pub proof fn lemma_spans_contiguous(s: Seq<char>, p: int)
    requires
        0 <= p <= s.len(),
        lex_all(s, p) is Some,
    ensures
        ({
            let ts = lex_all(s, p)->0;
            &&& forall|k: int| 0 <= k < ts.len() ==> p <= #[trigger] ts[k].0 < ts[k].1 <= s.len()
            &&& forall|k: int|
                0 <= k < ts.len() - 1 ==> #[trigger] ts[k].1 == ts[k + 1].0 && byte_offset(
                    s,
                    ts[k].1,
                ) == byte_offset(s, ts[k + 1].0)
            &&& ts.len() == 0 ==> p == s.len()
            &&& ts.len() > 0 ==> ts[0].0 == p && ts[ts.len() - 1].1 == s.len()
            &&& ts.len() > 0 ==> byte_offset(s, ts[0].0) == byte_offset(s, p) && byte_offset(
                s,
                ts[ts.len() - 1].1,
            ) == encode_utf8(s).len()
        }),
    decreases s.len() - p,
{
    lemma_byte_offset_bound(s, p);
    match step(s, p) {
        Step::Emit(lx, q) => {
            lemma_spans_contiguous(s, q);
            let rest = lex_all(s, q)->0;
            let ts = lex_all(s, p)->0;
            assert(ts == seq![(p, q, lx)] + rest);
            assert(ts.len() == rest.len() + 1);
            assert forall|k: int| 0 <= k < ts.len() - 1 implies #[trigger] ts[k].1 == ts[k + 1].0 by {
                if k > 0 {
                    assert(ts[k] == rest[k - 1]);
                    assert(ts[k + 1] == rest[k]);
                }
            }
            assert forall|k: int| 0 <= k < ts.len() implies p <= #[trigger] ts[k].0 < ts[k].1 <= s.len() by {
                if k > 0 {
                    assert(ts[k] == rest[k - 1]);
                }
            }
            if rest.len() > 0 {
                assert(ts[ts.len() - 1] == rest[rest.len() - 1]);
            }
        },
        Step::Done => {
            lemma_step_string_lexeme(s, p);
        },
        _ => {},
    }
}

/// Lexeme fidelity: when the whole input from `p` tokenizes, the lexeme of
/// every string token is exactly the source that its span covers.
pub proof fn lemma_string_lexemes_are_source(s: Seq<char>, p: int)
    requires
        0 <= p <= s.len(),
        lex_all(s, p) is Some,
    ensures
        ({
            let ts = lex_all(s, p)->0;
            forall|k: int|
                0 <= k < ts.len() ==> match #[trigger] ts[k].2 {
                    Lexeme::Str { src, .. } => src == s.subrange(ts[k].0, ts[k].1),
                    _ => true,
                }
        }),
    decreases s.len() - p,
{
    lemma_step_string_lexeme(s, p);
    match step(s, p) {
        Step::Emit(lx, q) => {
            lemma_string_lexemes_are_source(s, q);
            let rest = lex_all(s, q)->0;
            let ts = lex_all(s, p)->0;
            assert(ts == seq![(p, q, lx)] + rest);
            assert forall|k: int| 0 <= k < ts.len() implies match #[trigger] ts[k].2 {
                Lexeme::Str { src, .. } => src == s.subrange(ts[k].0, ts[k].1),
                _ => true,
            } by {
                if k > 0 {
                    assert(ts[k] == rest[k - 1]);
                }
            }
        },
        _ => {},
    }
}

/// Re-scan: two tokenizers over the same source, at the same cursor, drain
/// to the same tokens with the same spans, or fail alike.
pub proof fn lemma_rescan_identical(a: Tokenizer, b: Tokenizer)
    requires
        a.wf(),
        b.wf(),
        a.source() == b.source(),
        a.cursor() == b.cursor(),
    ensures
        lex_all(a.source(), a.cursor()) == lex_all(b.source(), b.cursor()),
        step(a.source(), a.cursor()) == step(b.source(), b.cursor()),
{
}

} // verus!
