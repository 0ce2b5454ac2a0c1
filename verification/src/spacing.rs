use crate::layout::{lemma_program_layout, same_outcome, same_tokens};
use crate::lexer::{
    first_operator, has_prefix_at, in_class, lemma_run_in_text, lemma_token_advances,
    lemma_token_skips_whitespace, operator_of,
    operator_text, run_len, token_at, ByteClass,
};
use crate::grammar::spec_program_outcome;
use vstd::prelude::*;

verus! {

/// Whether `a` from `p` and `b` from `q` hold the same bytes up to their ends.
pub open spec fn same_suffix(a: Seq<u8>, p: int, b: Seq<u8>, q: int) -> bool {
    &&& 0 <= p <= a.len()
    &&& 0 <= q <= b.len()
    &&& a.subrange(p, a.len() as int) =~= b.subrange(q, b.len() as int)
}

/// Whether `a` and `b` hold the same bytes before offset `k`.
pub open spec fn same_prefix(a: Seq<u8>, b: Seq<u8>, k: int) -> bool {
    &&& 0 <= k <= a.len()
    &&& k <= b.len()
    &&& a.subrange(0, k) =~= b.subrange(0, k)
}

/// Texts with the same suffix hold the same bytes in it, and the same
/// suffix from any later offset.
proof fn lemma_suffix_step(a: Seq<u8>, p: int, b: Seq<u8>, q: int, d: int)
    requires
        same_suffix(a, p, b, q),
        0 <= d <= a.len() - p,
    ensures
        a.len() - p == b.len() - q,
        same_suffix(a, p + d, b, q + d),
        a.subrange(p, p + d) == b.subrange(q, q + d),
        d < a.len() - p ==> a[p + d] == b[q + d],
{
    let sa = a.subrange(p, a.len() as int);
    let sb = b.subrange(q, b.len() as int);
    assert(sa.len() == sb.len());
    assert(a.subrange(p + d, a.len() as int) =~= sa.subrange(d, sa.len() as int));
    assert(b.subrange(q + d, b.len() as int) =~= sb.subrange(d, sb.len() as int));
    assert(a.subrange(p, p + d) =~= sa.subrange(0, d));
    assert(b.subrange(q, q + d) =~= sb.subrange(0, d));
    if d < a.len() - p {
        assert(a[p + d] == sa[d]);
        assert(b[q + d] == sb[d]);
    }
}

/// Texts with the same prefix hold the same bytes in it.
proof fn lemma_prefix_step(a: Seq<u8>, b: Seq<u8>, k: int, s: int, e: int)
    requires
        same_prefix(a, b, k),
        0 <= s <= e <= k,
    ensures
        a.subrange(s, e) == b.subrange(s, e),
        s < k ==> a[s] == b[s],
{
    let pa = a.subrange(0, k);
    let pb = b.subrange(0, k);
    assert(a.subrange(s, e) =~= pa.subrange(s, e));
    assert(b.subrange(s, e) =~= pb.subrange(s, e));
    if s < k {
        assert(a[s] == pa[s]);
        assert(b[s] == pb[s]);
    }
}

proof fn lemma_run_same_suffix(a: Seq<u8>, p: int, b: Seq<u8>, q: int, class: ByteClass)
    requires
        same_suffix(a, p, b, q),
    ensures
        run_len(a, p, class) == run_len(b, q, class),
    decreases a.len() - p,
{
    lemma_suffix_step(a, p, b, q, 0);
    if p < a.len() && in_class(class, a[p]) {
        lemma_suffix_step(a, p, b, q, 1);
        lemma_run_same_suffix(a, p + 1, b, q + 1, class);
    }
}

proof fn lemma_pattern_same_suffix(a: Seq<u8>, p: int, b: Seq<u8>, q: int, pat: Seq<u8>)
    requires
        same_suffix(a, p, b, q),
    ensures
        has_prefix_at(a, p, pat) == has_prefix_at(b, q, pat),
{
    lemma_suffix_step(a, p, b, q, 0);
    if p + pat.len() <= a.len() {
        lemma_suffix_step(a, p, b, q, pat.len() as int);
    }
}

proof fn lemma_operator_same_suffix(a: Seq<u8>, p: int, b: Seq<u8>, q: int, i: int)
    requires
        same_suffix(a, p, b, q),
    ensures
        first_operator(a, p, i) == first_operator(b, q, i),
    decreases 14 - i,
{
    if 0 <= i < 14 {
        lemma_pattern_same_suffix(a, p, b, q, operator_text(operator_of(i)));
        lemma_operator_same_suffix(a, p, b, q, i + 1);
    }
}

/// The tokenizer looks only ahead: texts with the same suffix hold the same
/// token at its start, of the same length, and the same suffix after it.
pub proof fn lemma_token_same_suffix(a: Seq<u8>, p: int, b: Seq<u8>, q: int)
    requires
        same_suffix(a, p, b, q),
    ensures
        token_at(a, p).0 == token_at(b, q).0,
        token_at(a, p).1 - p == token_at(b, q).1 - q,
        !(token_at(a, p).0 is Eof || token_at(a, p).0 is Error) ==> same_suffix(
            a,
            token_at(a, p).1,
            b,
            token_at(b, q).1,
        ),
{
    reveal(token_at);
    lemma_token_advances(a, p);
    lemma_token_advances(b, q);
    lemma_suffix_step(a, p, b, q, 0);
    lemma_run_same_suffix(a, p, b, q, ByteClass::Space);
    lemma_run_in_text(a, p, ByteClass::Space);
    let r = run_len(a, p, ByteClass::Space) as int;
    let sa = p + r;
    let sb = q + r;
    lemma_suffix_step(a, p, b, q, r);
    if sa < a.len() {
        lemma_operator_same_suffix(a, sa, b, sb, 0);
        lemma_suffix_step(a, sa, b, sb, 1);
        lemma_run_same_suffix(a, sa + 1, b, sb + 1, ByteClass::IdentPart);
        lemma_run_same_suffix(a, sa + 1, b, sb + 1, ByteClass::Digit);
        lemma_run_in_text(a, sa + 1, ByteClass::IdentPart);
        lemma_run_in_text(a, sa + 1, ByteClass::Digit);
        let ident = 1 + run_len(a, sa + 1, ByteClass::IdentPart) as int;
        lemma_suffix_step(a, sa, b, sb, ident);
        let whole = 1 + run_len(a, sa + 1, ByteClass::Digit) as int;
        lemma_suffix_step(a, sa, b, sb, whole);
        if sa + whole < a.len() {
            lemma_suffix_step(a, sa + whole, b, sb + whole, 1);
            lemma_run_same_suffix(a, sa + whole + 1, b, sb + whole + 1, ByteClass::NumberPart);
            lemma_run_in_text(a, sa + whole + 1, ByteClass::NumberPart);
            let fraction = run_len(a, sa + whole + 1, ByteClass::NumberPart) as int;
            lemma_suffix_step(a, sa + whole + 1, b, sb + whole + 1, fraction);
        }
        let e = token_at(a, p).1 - sa;
        if !(token_at(a, p).0 is Eof || token_at(a, p).0 is Error) {
            lemma_suffix_step(a, sa, b, sb, e);
        }
    }
}

/// Texts with the same suffix hold the same tokens in it.
pub proof fn lemma_same_suffix_same_tokens(a: Seq<u8>, p: int, b: Seq<u8>, q: int)
    requires
        same_suffix(a, p, b, q),
    ensures
        same_tokens(a, p, b, q),
    decreases a.len() - p,
{
    lemma_token_same_suffix(a, p, b, q);
    lemma_token_advances(a, p);
    if !(token_at(a, p).0 is Eof || token_at(a, p).0 is Error) {
        lemma_same_suffix_same_tokens(a, token_at(a, p).1, b, token_at(b, q).1);
    }
}

/// From the start of a stretch of whitespace the tokenizer finds what it
/// finds from any offset in the stretch, and from its end.
pub proof fn lemma_token_after_whitespace(a: Seq<u8>, p: int, k: int)
    requires
        0 <= p <= k <= a.len(),
        forall|i: int| p <= i < k ==> in_class(ByteClass::Space, #[trigger] a[i]),
    ensures
        token_at(a, p) == token_at(a, k),
    decreases k - p,
{
    if p < k {
        lemma_token_skips_whitespace(a, p);
        lemma_token_after_whitespace(a, p + 1, k);
    }
}

proof fn lemma_run_same_prefix(a: Seq<u8>, b: Seq<u8>, p: int, k: int, class: ByteClass)
    requires
        same_prefix(a, b, k),
        k < b.len(),
        0 <= p <= k,
        p + run_len(a, p, class) <= k,
        p + run_len(a, p, class) == k ==> !in_class(class, b[k]),
    ensures
        run_len(b, p, class) == run_len(a, p, class),
    decreases k - p,
{
    if p < k {
        lemma_prefix_step(a, b, k, p, p);
        if in_class(class, a[p]) {
            lemma_run_same_prefix(a, b, p + 1, k, class);
        }
    }
}

/// No operator holds a whitespace byte.
proof fn lemma_patterns_hold_no_whitespace()
    ensures
        forall|i: int, j: int|
            0 <= j < operator_text(operator_of(i)).len() ==> !in_class(
                ByteClass::Space,
                #[trigger] operator_text(operator_of(i))[j],
            ),
{
}

proof fn lemma_pattern_same_prefix(a: Seq<u8>, b: Seq<u8>, s: int, k: int, pat: Seq<u8>)
    requires
        same_prefix(a, b, k),
        k < b.len(),
        0 <= s <= k,
        in_class(ByteClass::Space, b[k]),
        forall|j: int| 0 <= j < pat.len() ==> !in_class(ByteClass::Space, #[trigger] pat[j]),
        has_prefix_at(a, s, pat) ==> s + pat.len() <= k,
    ensures
        has_prefix_at(b, s, pat) == has_prefix_at(a, s, pat),
{
    if s + pat.len() <= k {
        lemma_prefix_step(a, b, k, s, s + pat.len());
    } else if s + pat.len() <= b.len() {
        let window = b.subrange(s, s + pat.len());
        assert(window[k - s] == b[k]);
        assert(!in_class(ByteClass::Space, pat[k - s]));
    }
}

proof fn lemma_operator_same_prefix(a: Seq<u8>, b: Seq<u8>, s: int, k: int, i: int)
    requires
        same_prefix(a, b, k),
        k < b.len(),
        0 <= s <= k,
        0 <= i,
        in_class(ByteClass::Space, b[k]),
        first_operator(a, s, i) matches Some(found) ==> s + operator_text(found).len() <= k,
    ensures
        first_operator(b, s, i) == first_operator(a, s, i),
    decreases 14 - i,
{
    if i < 14 {
        lemma_patterns_hold_no_whitespace();
        let pat = operator_text(operator_of(i));
        assert forall|j: int| 0 <= j < pat.len() implies !in_class(
            ByteClass::Space,
            #[trigger] pat[j],
        ) by {
            assert(!in_class(ByteClass::Space, operator_text(operator_of(i))[j]));
        }
        lemma_pattern_same_prefix(a, b, s, k, pat);
        if !has_prefix_at(a, s, pat) {
            lemma_operator_same_prefix(a, b, s, k, i + 1);
        }
    }
}

/// A token that ends at or before `k` does not depend on what follows `k`,
/// as long as a whitespace byte stands at `k`.
pub proof fn lemma_token_same_prefix(a: Seq<u8>, b: Seq<u8>, p: int, k: int)
    requires
        same_prefix(a, b, k),
        k < b.len(),
        0 <= p,
        in_class(ByteClass::Space, b[k]),
        !(token_at(a, p).0 is Eof || token_at(a, p).0 is Error),
        token_at(a, p).1 <= k,
    ensures
        token_at(b, p) == token_at(a, p),
{
    reveal(token_at);
    lemma_token_advances(a, p);
    lemma_run_in_text(a, p, ByteClass::Space);
    let s = p + run_len(a, p, ByteClass::Space);
    crate::lexer::lemma_first_operator_fits(a, s, 0);
    lemma_run_in_text(a, s + 1, ByteClass::IdentPart);
    lemma_run_in_text(a, s + 1, ByteClass::Digit);
    assert(s < token_at(a, p).1);
    lemma_run_same_prefix(a, b, p, k, ByteClass::Space);
    lemma_prefix_step(a, b, k, s, s);
    if a[s] != crate::lexer::SEMICOLON {
        if crate::lexer::is_ident_start(a[s]) {
            lemma_run_same_prefix(a, b, s + 1, k, ByteClass::IdentPart);
            lemma_prefix_step(a, b, k, s, token_at(a, p).1);
        } else {
            lemma_operator_same_prefix(a, b, s, k, 0);
            if first_operator(a, s, 0) is None {
                let point = s + 1 + run_len(a, s + 1, ByteClass::Digit);
                if point < a.len() {
                    lemma_run_in_text(a, point + 1, ByteClass::NumberPart);
                }
                lemma_run_same_prefix(a, b, s + 1, k, ByteClass::Digit);
                lemma_prefix_step(a, b, k, s, point);
                if point < k {
                    lemma_prefix_step(a, b, k, point, point);
                }
                if point < a.len() && a[point] == crate::lexer::POINT {
                    lemma_run_same_prefix(a, b, point + 1, k, ByteClass::NumberPart);
                    lemma_prefix_step(a, b, k, point + 1, token_at(a, p).1);
                }
            }
        }
    }
}

/// Whether `k` is an offset between two tokens of `a`, counted from `p`: in
/// the whitespace before a token, right before it, right after it, or at the
/// end of the text.
pub open spec fn between_tokens(a: Seq<u8>, p: int, k: int) -> bool
    decreases a.len() - p,
{
    if !(0 <= p <= k <= a.len()) {
        false
    } else if forall|i: int| p <= i < k ==> in_class(ByteClass::Space, #[trigger] a[i]) {
        true
    } else if token_at(a, p).0 is Eof || token_at(a, p).0 is Error || token_at(a, p).1 > k {
        false
    } else {
        proof {
            lemma_token_advances(a, p);
        }
        between_tokens(a, token_at(a, p).1, k)
    }
}

/// A whitespace byte put between two tokens changes no token: the text holds
/// the same tokens with it as without it.
pub proof fn lemma_whitespace_between_tokens(a: Seq<u8>, p: int, k: int, w: u8)
    requires
        between_tokens(a, p, k),
        in_class(ByteClass::Space, w),
    ensures
        same_tokens(a, p, a.insert(k, w), p),
    decreases a.len() - p,
{
    let b = a.insert(k, w);
    assert(b.len() == a.len() + 1);
    assert(b[k] == w);
    assert(a.subrange(0, k) =~= b.subrange(0, k));
    assert(a.subrange(k, a.len() as int) =~= b.subrange(k + 1, b.len() as int));
    if forall|i: int| p <= i < k ==> in_class(ByteClass::Space, #[trigger] a[i]) {
        lemma_same_suffix_same_tokens(a, k, b, k + 1);
        lemma_token_after_whitespace(a, p, k);
        assert forall|i: int| p <= i < k + 1 implies in_class(
            ByteClass::Space,
            #[trigger] b[i],
        ) by {
            if i < k {
                assert(b[i] == a[i]);
            }
        }
        lemma_token_after_whitespace(b, p, k + 1);
    } else {
        lemma_token_advances(a, p);
        lemma_token_same_prefix(a, b, p, k);
        lemma_whitespace_between_tokens(a, token_at(a, p).1, k, w);
    }
}

/// The program that a text holds does not change when a whitespace byte is
/// put between two of its tokens, before the first or after the last.
pub proof fn lemma_whitespace_keeps_the_program(a: Seq<u8>, k: int, w: u8)
    requires
        between_tokens(a, 0, k),
        in_class(ByteClass::Space, w),
    ensures
        same_outcome(spec_program_outcome(a, 0), spec_program_outcome(a.insert(k, w), 0)),
{
    lemma_whitespace_between_tokens(a, 0, k, w);
    lemma_program_layout(a, 0, a.insert(k, w), 0);
}

} // verus!
