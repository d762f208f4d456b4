//! Cosine similarity over fixed-point embedding vectors.
//!
//! Embeddings are vectors of millionths: a component of `SCORE_ONE` stands
//! for 1.0. Similarity is computed exactly in integers as
//! dot(a,b) * SCORE_ONE / isqrt(norm2(a) * norm2(b)), rounded toward zero.

use crate::drift::SCORE_ONE;
use vstd::arithmetic::div_mod::{lemma_div_by_multiple, lemma_div_is_ordered, lemma_div_pos_is_pos};
use vstd::prelude::*;

verus! {

/// The dot product of two vectors, over their common length.
pub open spec fn dot(a: Seq<i64>, b: Seq<i64>) -> int
    decreases a.len(),
{
    if a.len() == 0 || b.len() == 0 {
        0
    } else {
        dot(a.drop_last(), b.drop_last()) + (a.last() as int) * (b.last() as int)
    }
}

/// The squared Euclidean norm of a vector.
pub open spec fn norm2(a: Seq<i64>) -> int {
    dot(a, a)
}

/// The integer square root: the largest `r` with `r * r <= n`, 0 for
/// negative `n`.
pub open spec fn isqrt(n: int) -> int
    decreases n,
{
    if n <= 0 {
        0
    } else {
        let r = isqrt(n - 1);
        if (r + 1) * (r + 1) <= n {
            r + 1
        } else {
            r
        }
    }
}

pub proof fn lemma_isqrt_bounds(n: int)
    requires
        n >= 0,
    ensures
        isqrt(n) >= 0,
        isqrt(n) * isqrt(n) <= n,
        (isqrt(n) + 1) * (isqrt(n) + 1) > n,
    decreases n,
{
    if n == 0 {
    } else {
        lemma_isqrt_bounds(n - 1);
        let r = isqrt(n - 1);
        if (r + 1) * (r + 1) <= n {
            assert((r + 2) * (r + 2) > (r + 1) * (r + 1)) by (nonlinear_arith)
                requires
                    r >= 0,
            ;
        } else {
        }
    }
}

pub proof fn lemma_isqrt_unique(n: int, r: int)
    requires
        n >= 0,
        r >= 0,
        r * r <= n,
        (r + 1) * (r + 1) > n,
    ensures
        isqrt(n) == r,
{
    lemma_isqrt_bounds(n);
    let s = isqrt(n);
    if s < r {
        assert((s + 1) * (s + 1) <= r * r) by (nonlinear_arith)
            requires
                0 <= s,
                s + 1 <= r,
        ;
    }
    if s > r {
        assert((r + 1) * (r + 1) <= s * s) by (nonlinear_arith)
            requires
                0 <= r,
                r + 1 <= s,
        ;
    }
}

/// The integer square root of a 128-bit number, by binary search.
pub fn isqrt_u128(n: u128) -> (r: u128)
    ensures
        r as int == isqrt(n as int),
        (r as int) * (r as int) <= n as int,
        ((r as int) + 1) * ((r as int) + 1) > n as int,
{
    let mut lo: u128 = 0;
    let mut hi: u128 = 0x1_0000_0000_0000_0000;
    proof {
        assert((hi as int) * (hi as int) > n as int) by (nonlinear_arith)
            requires
                hi == 0x1_0000_0000_0000_0000u128,
                n <= u128::MAX,
        ;
    }
    while lo + 1 < hi
        invariant
            0 <= lo < hi <= 0x1_0000_0000_0000_0000u128,
            (lo as int) * (lo as int) <= n as int,
            (hi as int) * (hi as int) > n as int,
        decreases hi - lo,
    {
        let mid = lo + (hi - lo) / 2;
        proof {
            assert((mid as int) * (mid as int) < 0x1_0000_0000_0000_0000i128 as int
                * 0x1_0000_0000_0000_0000i128 as int) by (nonlinear_arith)
                requires
                    0 <= mid < 0x1_0000_0000_0000_0000u128,
            ;
        }
        let sq = mid * mid;
        if sq <= n {
            lo = mid;
        } else {
            hi = mid;
        }
    }
    proof {
        lemma_isqrt_unique(n as int, lo as int);
    }
    lo
}

pub proof fn lemma_norm2_nonneg(a: Seq<i64>)
    ensures
        norm2(a) >= 0,
    decreases a.len(),
{
    if a.len() == 0 {
    } else {
        lemma_norm2_nonneg(a.drop_last());
        let x = a.last() as int;
        assert(x * x >= 0) by (nonlinear_arith);
    }
}

/// The Cauchy-Schwarz inequality for integer vectors: the squared dot
/// product never exceeds the product of the squared norms.
pub proof fn lemma_cauchy_schwarz(a: Seq<i64>, b: Seq<i64>)
    requires
        a.len() == b.len(),
    ensures
        dot(a, b) * dot(a, b) <= norm2(a) * norm2(b),
    decreases a.len(),
{
    if a.len() == 0 {
    } else {
        let a1 = a.drop_last();
        let b1 = b.drop_last();
        lemma_cauchy_schwarz(a1, b1);
        lemma_norm2_nonneg(a1);
        lemma_norm2_nonneg(b1);
        let d = dot(a1, b1);
        let na = norm2(a1);
        let nb = norm2(b1);
        let x = a.last() as int;
        let y = b.last() as int;
        let x2 = x * x;
        let y2 = y * y;
        let xy = x * y;
        let p = na * y2;
        let q = nb * x2;
        assert((p + q) * (p + q) >= 4 * (p * q)) by (nonlinear_arith);
        assert(p * q == (na * nb) * (xy * xy)) by (nonlinear_arith)
            requires
                p == na * (y * y),
                q == nb * (x * x),
                xy == x * y,
        ;
        assert((na * nb) * (xy * xy) >= (d * d) * (xy * xy)) by (nonlinear_arith)
            requires
                d * d <= na * nb,
        ;
        assert(4 * ((d * d) * (xy * xy)) == (2 * d * xy) * (2 * d * xy)) by (nonlinear_arith);
        assert(p >= 0) by (nonlinear_arith)
            requires
                na >= 0,
                p == na * (y * y),
        ;
        assert(q >= 0) by (nonlinear_arith)
            requires
                nb >= 0,
                q == nb * (x * x),
        ;
        assert(p + q >= 2 * d * xy) by (nonlinear_arith)
            requires
                (p + q) * (p + q) >= (2 * d * xy) * (2 * d * xy),
                p + q >= 0,
        ;
        assert((d + xy) * (d + xy) == d * d + 2 * d * xy + xy * xy) by (nonlinear_arith);
        assert((na + x2) * (nb + y2) == na * nb + (na * y2 + nb * x2) + x2 * y2)
            by (nonlinear_arith);
        assert(xy * xy == x2 * y2) by (nonlinear_arith)
            requires
                xy == x * y,
                x2 == x * x,
                y2 == y * y,
        ;
        assert((d + xy) * (d + xy) <= (na + x2) * (nb + y2));
        assert(dot(a, b) == d + xy);
        assert(norm2(a) == na + x2);
        assert(norm2(b) == nb + y2);
    }
}

/// A well-formed embedding: components within one unit of the fixed-point
/// scale, and a length the arithmetic below can take without overflow.
pub open spec fn embedding_wf(e: Seq<i64>) -> bool {
    &&& e.len() <= 0x80_0000
    &&& forall|i: int| 0 <= i < e.len() ==> -1_000_000 <= #[trigger] e[i] <= 1_000_000
}

/// The fixed-point cosine similarity of two vectors: 0 when the lengths
/// differ, the vectors are empty or either norm is zero; otherwise the dot
/// product scaled by `SCORE_ONE` and divided by the integer square root of
/// the product of the squared norms, rounded toward zero.
pub open spec fn cosine_of(a: Seq<i64>, b: Seq<i64>) -> int {
    if a.len() != b.len() || a.len() == 0 {
        0
    } else {
        let na = norm2(a);
        let nb = norm2(b);
        if na == 0 || nb == 0 {
            0
        } else {
            let s = isqrt(na * nb);
            let d = dot(a, b);
            if d < 0 {
                -((-d) * (SCORE_ONE as int) / s)
            } else {
                d * (SCORE_ONE as int) / s
            }
        }
    }
}

proof fn lemma_dot_prefix_bound(a: Seq<i64>, b: Seq<i64>)
    requires
        a.len() == b.len(),
        forall|i: int| 0 <= i < a.len() ==> -1_000_000 <= #[trigger] a[i] <= 1_000_000,
        forall|i: int| 0 <= i < b.len() ==> -1_000_000 <= #[trigger] b[i] <= 1_000_000,
    ensures
        -(a.len() as int) * 0xE8D4A51000 <= dot(a, b) <= (a.len() as int) * 0xE8D4A51000,
    decreases a.len(),
{
    if a.len() == 0 {
    } else {
        let a1 = a.drop_last();
        let b1 = b.drop_last();
        lemma_dot_prefix_bound(a1, b1);
        let x = a.last() as int;
        let y = b.last() as int;
        assert(-0xE8D4A51000 <= x * y <= 0xE8D4A51000) by (nonlinear_arith)
            requires
                -1_000_000 <= x <= 1_000_000,
                -1_000_000 <= y <= 1_000_000,
        ;
        assert(-(a1.len() as int) * 0xE8D4A51000 - 0xE8D4A51000 == -(a.len() as int)
            * 0xE8D4A51000) by (nonlinear_arith)
            requires
                a.len() == a1.len() + 1,
        ;
        assert((a1.len() as int) * 0xE8D4A51000 + 0xE8D4A51000 == (a.len() as int) * 0xE8D4A51000)
            by (nonlinear_arith)
            requires
                a.len() == a1.len() + 1,
        ;
    }
}

/// The componentwise negation of a vector.
pub open spec fn negated(v: Seq<i64>) -> Seq<i64> {
    v.map_values(|x: i64| (-(x as int)) as i64)
}

proof fn lemma_dot_negated(a: Seq<i64>, v: Seq<i64>)
    requires
        a.len() == v.len(),
        forall|i: int| 0 <= i < v.len() ==> -1_000_000 <= #[trigger] v[i] <= 1_000_000,
    ensures
        dot(a, negated(v)) == -dot(a, v),
    decreases a.len(),
{
    if a.len() == 0 {
    } else {
        let a1 = a.drop_last();
        let v1 = v.drop_last();
        assert forall|i: int| 0 <= i < v1.len() implies -1_000_000 <= #[trigger] v1[i]
            <= 1_000_000 by {
            assert(v1[i] == v[i]);
        }
        lemma_dot_negated(a1, v1);
        assert(negated(v).drop_last() =~= negated(v1));
        assert(negated(v).last() as int == -(v.last() as int));
        assert(dot(a, negated(v)) == dot(a1, negated(v1)) + (a.last() as int) * (negated(
            v,
        ).last() as int));
        assert((a.last() as int) * (-(v.last() as int)) == -((a.last() as int) * (
        v.last() as int))) by (nonlinear_arith);
    }
}

proof fn lemma_norm2_negated(v: Seq<i64>)
    requires
        forall|i: int| 0 <= i < v.len() ==> -1_000_000 <= #[trigger] v[i] <= 1_000_000,
    ensures
        norm2(negated(v)) == norm2(v),
    decreases v.len(),
{
    if v.len() == 0 {
    } else {
        let v1 = v.drop_last();
        assert forall|i: int| 0 <= i < v1.len() implies -1_000_000 <= #[trigger] v1[i]
            <= 1_000_000 by {
            assert(v1[i] == v[i]);
        }
        lemma_norm2_negated(v1);
        assert(negated(v).drop_last() =~= negated(v1));
        let x = v.last() as int;
        assert(negated(v).last() as int == -x);
        assert((-x) * (-x) == x * x) by (nonlinear_arith);
    }
}

proof fn lemma_isqrt_square(n: int)
    requires
        n >= 0,
    ensures
        isqrt(n * n) == n,
{
    assert(n * n >= 0) by (nonlinear_arith)
        requires
            n >= 0,
    ;
    assert((n + 1) * (n + 1) > n * n) by (nonlinear_arith)
        requires
            n >= 0,
    ;
    lemma_isqrt_unique(n * n, n);
}

/// The cosine similarity of a non-zero vector with itself is exactly one
/// unit of the fixed-point scale.
pub proof fn lemma_cosine_self(v: Seq<i64>)
    requires
        v.len() > 0,
        norm2(v) != 0,
    ensures
        cosine_of(v, v) == SCORE_ONE as int,
{
    lemma_norm2_nonneg(v);
    let n = norm2(v);
    lemma_isqrt_square(n);
    lemma_div_by_multiple(SCORE_ONE as int, n);
    assert(dot(v, v) * (SCORE_ONE as int) == (SCORE_ONE as int) * n) by (nonlinear_arith)
        requires
            dot(v, v) == n,
    ;
}

/// The cosine similarity of a non-zero vector with its negation is exactly
/// minus one unit of the fixed-point scale.
pub proof fn lemma_cosine_opposite(v: Seq<i64>)
    requires
        v.len() > 0,
        norm2(v) != 0,
        forall|i: int| 0 <= i < v.len() ==> -1_000_000 <= #[trigger] v[i] <= 1_000_000,
    ensures
        cosine_of(v, negated(v)) == -(SCORE_ONE as int),
{
    lemma_norm2_nonneg(v);
    lemma_norm2_negated(v);
    lemma_dot_negated(v, v);
    let n = norm2(v);
    lemma_isqrt_square(n);
    lemma_div_by_multiple(SCORE_ONE as int, n);
    let d = dot(v, negated(v));
    assert(d == -n);
    assert((-d) * (SCORE_ONE as int) == (SCORE_ONE as int) * n) by (nonlinear_arith)
        requires
            d == -n,
    ;
}

/// The cosine similarity of orthogonal vectors is exactly zero.
pub proof fn lemma_cosine_orthogonal(u: Seq<i64>, v: Seq<i64>)
    requires
        u.len() == v.len(),
        dot(u, v) == 0,
    ensures
        cosine_of(u, v) == 0,
{
    if u.len() == 0 {
    } else {
        let na = norm2(u);
        let nb = norm2(v);
        if na == 0 || nb == 0 {
        } else {
            lemma_norm2_nonneg(u);
            lemma_norm2_nonneg(v);
            assert(na * nb > 0) by (nonlinear_arith)
                requires
                    na > 0,
                    nb > 0,
            ;
            let s = isqrt(na * nb);
            lemma_isqrt_bounds(na * nb);
            assert(s >= 1) by (nonlinear_arith)
                requires
                    (s + 1) * (s + 1) > na * nb,
                    na * nb >= 1,
                    s >= 0,
            ;
            vstd::arithmetic::div_mod::lemma_div_of0(s);
        }
    }
}

/// Compute the cosine similarity of two fixed-point embedding vectors.
/// The result always lies between `-SCORE_ONE` and `SCORE_ONE`.
pub fn cosine_similarity(a: &Vec<i64>, b: &Vec<i64>) -> (r: i64)
    requires
        embedding_wf(a@),
        embedding_wf(b@),
    ensures
        r as int == cosine_of(a@, b@),
        -SCORE_ONE <= r <= SCORE_ONE,
{
    if a.len() != b.len() || a.len() == 0 {
        return 0;
    }
    let n = a.len();
    let mut d: i128 = 0;
    let mut na: i128 = 0;
    let mut nb: i128 = 0;
    let mut i: usize = 0;
    proof {
        assert(a@.subrange(0, 0) =~= Seq::<i64>::empty());
        assert(b@.subrange(0, 0) =~= Seq::<i64>::empty());
    }
    while i < n
        invariant
            0 <= i <= n,
            n == a@.len() == b@.len(),
            embedding_wf(a@),
            embedding_wf(b@),
            d as int == dot(a@.subrange(0, i as int), b@.subrange(0, i as int)),
            na as int == norm2(a@.subrange(0, i as int)),
            nb as int == norm2(b@.subrange(0, i as int)),
        decreases n - i,
    {
        let ghost ap = a@.subrange(0, i as int);
        let ghost bp = b@.subrange(0, i as int);
        proof {
            lemma_dot_prefix_bound(ap, bp);
            lemma_dot_prefix_bound(ap, ap);
            lemma_dot_prefix_bound(bp, bp);
            assert((i as int) * 0xE8D4A51000 <= 0x80_0000 * 0xE8D4A51000) by (nonlinear_arith)
                requires
                    0 <= i <= 0x80_0000,
            ;
            assert(-1_000_000 <= a@[i as int] <= 1_000_000);
            assert(-1_000_000 <= b@[i as int] <= 1_000_000);
            assert(-0xE8D4A51000 <= (a@[i as int] as int) * (b@[i as int] as int)
                <= 0xE8D4A51000) by (nonlinear_arith)
                requires
                    -1_000_000 <= a@[i as int] <= 1_000_000,
                    -1_000_000 <= b@[i as int] <= 1_000_000,
            ;
            assert(-0xE8D4A51000 <= (a@[i as int] as int) * (a@[i as int] as int)
                <= 0xE8D4A51000) by (nonlinear_arith)
                requires
                    -1_000_000 <= a@[i as int] <= 1_000_000,
            ;
            assert(-0xE8D4A51000 <= (b@[i as int] as int) * (b@[i as int] as int)
                <= 0xE8D4A51000) by (nonlinear_arith)
                requires
                    -1_000_000 <= b@[i as int] <= 1_000_000,
            ;
            assert(a@.subrange(0, i as int + 1).drop_last() =~= ap);
            assert(b@.subrange(0, i as int + 1).drop_last() =~= bp);
        }
        let x = a[i] as i128;
        let y = b[i] as i128;
        d = d + x * y;
        na = na + x * x;
        nb = nb + y * y;
        i = i + 1;
    }
    proof {
        assert(a@.subrange(0, n as int) =~= a@);
        assert(b@.subrange(0, n as int) =~= b@);
    }
    if na == 0 || nb == 0 {
        return 0;
    }
    proof {
        lemma_norm2_nonneg(a@);
        lemma_norm2_nonneg(b@);
        lemma_dot_prefix_bound(a@, a@);
        lemma_dot_prefix_bound(b@, b@);
        lemma_dot_prefix_bound(a@, b@);
        assert((n as int) * 0xE8D4A51000 <= 0x80_0000 * 0xE8D4A51000) by (nonlinear_arith)
            requires
                0 <= n <= 0x80_0000,
        ;
        assert((na as int) * (nb as int) <= 0x746A528800000000 * 0x746A528800000000)
            by (nonlinear_arith)
            requires
                0 < na <= 0x746A528800000000,
                0 < nb <= 0x746A528800000000,
        ;
        assert((na as int) * (nb as int) > 0) by (nonlinear_arith)
            requires
                na > 0,
                nb > 0,
        ;
    }
    let prod: i128 = na * nb;
    let s = isqrt_u128(prod as u128);
    proof {
        // The root of a positive product is positive.
        lemma_isqrt_bounds(prod as int);
        assert(s >= 1) by (nonlinear_arith)
            requires
                ((s as int) + 1) * ((s as int) + 1) > prod as int,
                prod as int >= 1,
                s as int >= 0,
        ;
        // Cauchy-Schwarz bounds the magnitude of the dot product by the
        // root, and with it the quotient by the fixed-point unit.
        lemma_cauchy_schwarz(a@, b@);
        let dd = dot(a@, b@);
        let mag = if dd < 0 {
            -dd
        } else {
            dd
        };
        assert(mag * mag == dd * dd) by (nonlinear_arith)
            requires
                mag == if dd < 0 {
                    -dd
                } else {
                    dd
                },
        ;
        assert(mag * mag <= prod as int);
        if mag > s as int {
            assert((s as int + 1) * (s as int + 1) <= mag * mag) by (nonlinear_arith)
                requires
                    s as int + 1 <= mag,
                    s >= 0,
            ;
            assert(false);
        }
        assert(mag * (SCORE_ONE as int) <= (s as int) * (SCORE_ONE as int)) by (nonlinear_arith)
            requires
                mag <= s as int,
        ;
        assert(mag * (SCORE_ONE as int) >= 0) by (nonlinear_arith)
            requires
                mag >= 0,
        ;
        lemma_div_is_ordered(mag * (SCORE_ONE as int), (s as int) * (SCORE_ONE as int), s as int);
        lemma_div_by_multiple(SCORE_ONE as int, s as int);
        lemma_div_pos_is_pos(mag * (SCORE_ONE as int), s as int);
        assert((SCORE_ONE as int) * (s as int) == (s as int) * (SCORE_ONE as int));
        assert(mag * (SCORE_ONE as int) / (s as int) <= SCORE_ONE as int);
    }
    let mag: u128 = if d < 0 {
        (-d) as u128
    } else {
        d as u128
    };
    proof {
        let dd = dot(a@, b@);
        let magi = if dd < 0 {
            -dd
        } else {
            dd
        };
        assert(mag as int == magi);
        assert(mag as int * (SCORE_ONE as int) == (mag * (SCORE_ONE as u128)) as int)
            by (nonlinear_arith)
            requires
                mag <= 0x746A528800000000u128,
        ;
    }
    let q: u128 = (mag * (SCORE_ONE as u128)) / s;
    let qi = q as i64;
    if d < 0 {
        -qi
    } else {
        qi
    }
}

/// One candidate ranks strictly above another: a greater similarity, or an
/// equal similarity at an earlier input position.
pub open spec fn ranks_above(p: (usize, i64), q: (usize, i64)) -> bool {
    p.1 > q.1 || (p.1 == q.1 && p.0 < q.0)
}

/// Select the top `k` candidates by similarity, ties broken by input order,
/// then drop any below `min_similarity`.
///
/// Each candidate pairs its position in the caller's list with its score.
/// The result is ranked: scores descend, and equal scores keep input order.
/// When fewer than `k` make the cut, every candidate at or above
/// `min_similarity` is in the result; when the result is full, everything
/// left out ranks below everything selected.
pub fn find_top_k(candidates: &Vec<(usize, i64)>, k: usize, min_similarity: i64) -> (r: Vec<
    (usize, i64),
>)
    requires
        forall|i: int, j: int|
            0 <= i < j < candidates@.len() ==> (#[trigger] candidates@[i]).0 < (
            #[trigger] candidates@[j]).0,
    ensures
        r@.len() <= k,
        forall|i: int| 0 <= i < r@.len() ==> candidates@.contains(#[trigger] r@[i]),
        forall|i: int| 0 <= i < r@.len() ==> (#[trigger] r@[i]).1 >= min_similarity,
        forall|i: int, j: int|
            0 <= i < j < r@.len() ==> ranks_above(#[trigger] r@[i], #[trigger] r@[j]),
        r@.len() < k ==> forall|c: (usize, i64)|
            candidates@.contains(c) && c.1 >= min_similarity ==> r@.contains(c),
        forall|c: (usize, i64)|
            candidates@.contains(c) && c.1 >= min_similarity && !r@.contains(c) ==> forall|i: int|
                0 <= i < r@.len() ==> ranks_above(#[trigger] r@[i], c),
{
    let n = candidates.len();
    let mut used: Vec<bool> = Vec::new();
    let mut z: usize = 0;
    while z < n
        invariant
            0 <= z <= n,
            used@.len() == z,
            forall|j: int| 0 <= j < z ==> !(#[trigger] used@[j]),
        decreases n - z,
    {
        used.push(false);
        z = z + 1;
    }
    let mut out: Vec<(usize, i64)> = Vec::new();
    let mut round: usize = 0;
    while round < k
        invariant
            n == candidates@.len(),
            used@.len() == n,
            out@.len() <= round <= k,
            // What is selected came from the candidates, meets the floor,
            // and is marked used.
            forall|i: int| 0 <= i < out@.len() ==> candidates@.contains(#[trigger] out@[i]),
            forall|i: int| 0 <= i < out@.len() ==> (#[trigger] out@[i]).1 >= min_similarity,
            // What is marked used is selected.
            forall|p: int| 0 <= p < n && #[trigger] used@[p] ==> out@.contains(candidates@[p]),
            // The selection ranks strictly downward.
            forall|i: int, j: int|
                0 <= i < j < out@.len() ==> ranks_above(#[trigger] out@[i], #[trigger] out@[j]),
            // Whatever is not yet selected ranks below everything selected.
            forall|p: int|
                0 <= p < n && !(#[trigger] used@[p]) ==> forall|i: int|
                    0 <= i < out@.len() ==> ranks_above(#[trigger] out@[i], candidates@[p]),
            // Once a round selects nothing, nothing above the floor is left.
            out@.len() < round ==> forall|p: int|
                0 <= p < n && !(#[trigger] used@[p]) ==> candidates@[p].1 < min_similarity,
            forall|i: int, j: int|
                0 <= i < j < n ==> (#[trigger] candidates@[i]).0 < (#[trigger] candidates@[j]).0,
        decreases k - round,
    {
        // Scan every candidate for the best unused one at or above the
        // floor: the greatest similarity, the earliest position on a tie.
        let mut best: usize = n;
        let mut q: usize = 0;
        while q < n
            invariant
                n == candidates@.len(),
                used@.len() == n,
                0 <= q <= n,
                best <= n,
                best < n ==> best < q,
                best < n ==> !used@[best as int] && candidates@[best as int].1 >= min_similarity,
                best < n ==> forall|p: int|
                    0 <= p < q && !(#[trigger] used@[p]) && candidates@[p].1 >= min_similarity ==> p
                        == best || ranks_above(candidates@[best as int], candidates@[p]),
                best == n ==> forall|p: int|
                    0 <= p < q && !(#[trigger] used@[p]) ==> candidates@[p].1 < min_similarity,
                forall|i: int, j: int|
                    0 <= i < j < n ==> (#[trigger] candidates@[i]).0 < (
                    #[trigger] candidates@[j]).0,
            decreases n - q,
        {
            if !used[q] && candidates[q].1 >= min_similarity {
                if best == n || candidates[q].1 > candidates[best].1 {
                    best = q;
                }
            }
            q = q + 1;
        }
        if best == n {
            // No candidate at or above the floor is left: later rounds
            // would select nothing either.
            round = round + 1;
        } else {
            let pick = candidates[best];
            let ghost pre_out = out@;
            let ghost pre_used = used@;
            proof {
                assert(candidates@.contains(pick)) by {
                    assert(candidates@[best as int] == pick);
                }
            }
            out.push(pick);
            used[best] = true;
            proof {
                assert(out@ == pre_out.push(pick));
                assert(used@ == pre_used.update(best as int, true));
                // Everything marked used is selected.
                assert forall|p: int| 0 <= p < n && #[trigger] used@[p] implies out@.contains(
                    candidates@[p],
                ) by {
                    if p == best as int {
                        assert(out@[out@.len() - 1] == candidates@[p]);
                    } else {
                        assert(pre_used[p]);
                        assert(pre_out.contains(candidates@[p]));
                        let w = choose|w: int|
                            0 <= w < pre_out.len() && pre_out[w] == candidates@[p];
                        assert(out@[w] == candidates@[p]);
                    }
                }
                // The pick ranks above everything still unused.
                assert forall|p: int|
                    0 <= p < n && !(#[trigger] used@[p]) implies ranks_above(
                    pick,
                    candidates@[p],
                ) by {
                    assert(pre_used[p] == used@[p]);
                    if candidates@[p].1 >= min_similarity {
                        if p < best as int {
                            assert(candidates@[p].0 < candidates@[best as int].0);
                        }
                        if p > best as int {
                            assert(candidates@[best as int].0 < candidates@[p].0);
                        }
                    }
                }
                // The selection still ranks strictly downward.
                assert forall|i: int, j: int|
                    0 <= i < j < out@.len() implies ranks_above(
                    #[trigger] out@[i],
                    #[trigger] out@[j],
                ) by {
                    if j < out@.len() - 1 {
                        assert(pre_out[i] == out@[i] && pre_out[j] == out@[j]);
                    } else {
                        assert(pre_out[i] == out@[i]);
                        assert(out@[j] == pick);
                        assert(!pre_used[best as int]);
                    }
                }
                // Whatever is unused now was unused before, so it stays
                // dominated by the earlier selection as well.
                assert forall|p: int|
                    0 <= p < n && !(#[trigger] used@[p]) implies forall|i: int|
                        0 <= i < out@.len() ==> ranks_above(#[trigger] out@[i], candidates@[p]) by {
                    assert(!pre_used[p]);
                    assert forall|i: int| 0 <= i < out@.len() implies ranks_above(
                        #[trigger] out@[i],
                        candidates@[p],
                    ) by {
                        if i < out@.len() - 1 {
                            assert(pre_out[i] == out@[i]);
                        } else {
                            assert(out@[i] == pick);
                        }
                    }
                }
            }
            round = round + 1;
        }
    }
    proof {
        assert forall|c: (usize, i64)|
            candidates@.contains(c) && c.1 >= min_similarity && !out@.contains(
                c,
            ) implies forall|i: int| 0 <= i < out@.len() ==> ranks_above(#[trigger] out@[i], c) by {
            let p = choose|p: int| 0 <= p < candidates@.len() && candidates@[p] == c;
            assert(!used@[p]);
        }
        if out@.len() < k {
            assert forall|c: (usize, i64)|
                candidates@.contains(c) && c.1 >= min_similarity implies out@.contains(c) by {
                let p = choose|p: int| 0 <= p < candidates@.len() && candidates@[p] == c;
                if !used@[p] {
                    assert(candidates@[p].1 < min_similarity);
                }
            }
        }
    }
    out
}

} // verus!
