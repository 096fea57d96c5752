//! Result post-processing: overlap filtering and Maximal-Marginal-Relevance
//! (MMR) diversification.
//!
//! All similarity arithmetic runs in fixed point: an embedding component or a
//! score is an `i64` holding its value times [`SCALE`].  Callers that obtain
//! floating-point vectors from an inference engine or the index convert them
//! once at the boundary; every ranking decision after that point is exact
//! integer arithmetic and verified.

use vstd::prelude::*;

verus! {

/// The fixed-point scale: an `i64` component `v` stands for `v / SCALE`.
pub const SCALE: i64 = 1_000_000;

/// The largest magnitude an embedding component may have (33 after scaling).
/// Keeps every product and sum far inside `i128`.
pub const COMP_BOUND: i64 = 33_000_000;

/// The largest embedding dimension accepted.
pub const MAX_DIM: usize = 8192;

/// Every component of `a` is bounded by [`COMP_BOUND`].
pub open spec fn bounded(a: Seq<i64>) -> bool {
    forall|i: int| 0 <= i < a.len() ==> -(COMP_BOUND as int) <= #[trigger] a[i] <= COMP_BOUND as int
}

/// Some component of `a` is non-zero: the vector is not degenerate.
pub open spec fn nonzero(a: Seq<i64>) -> bool {
    exists|i: int| 0 <= i < a.len() && a[i] != 0
}

/// The dot product.
pub open spec fn spec_dot(a: Seq<i64>, b: Seq<i64>) -> int
    recommends
        a.len() == b.len(),
    decreases a.len(),
{
    if a.len() == 0 || b.len() == 0 {
        0
    } else {
        spec_dot(a.drop_last(), b.drop_last()) + (a.last() as int) * (b.last() as int)
    }
}

proof fn lemma_dot_bound(a: Seq<i64>, b: Seq<i64>)
    requires
        a.len() == b.len(),
        bounded(a),
        bounded(b),
    ensures
        -(a.len() as int) * (COMP_BOUND as int) * (COMP_BOUND as int) <= spec_dot(a, b) <= (
        a.len() as int) * (COMP_BOUND as int) * (COMP_BOUND as int),
    decreases a.len(),
{
    let c = COMP_BOUND as int;
    if a.len() == 0 {
    } else {
        lemma_dot_bound(a.drop_last(), b.drop_last());
        assert(bounded(a.drop_last()) && bounded(b.drop_last())) by {
            assert(forall|i: int|
                0 <= i < a.len() - 1 ==> a.drop_last()[i] == a[i] && b.drop_last()[i] == b[i]);
        }
        let n1 = a.len() - 1 as int;
        assert(-c * c <= (a.last() as int) * (b.last() as int) <= c * c) by (nonlinear_arith)
            requires
                -c <= a.last() as int <= c,
                -c <= b.last() as int <= c,
                c > 0,
        ;
        assert(-(n1 + 1) * c * c <= spec_dot(a.drop_last(), b.drop_last()) + (a.last() as int) * (
        b.last() as int) <= (n1 + 1) * c * c) by (nonlinear_arith)
            requires
                -n1 * c * c <= spec_dot(a.drop_last(), b.drop_last()) <= n1 * c * c,
                -c * c <= (a.last() as int) * (b.last() as int) <= c * c,
        ;
    }
}

/// The self dot product is non-negative, and positive for a non-degenerate
/// vector.
proof fn lemma_self_dot_pos(a: Seq<i64>)
    requires
        bounded(a),
    ensures
        spec_dot(a, a) >= 0,
        nonzero(a) ==> spec_dot(a, a) > 0,
    decreases a.len(),
{
    if a.len() == 0 {
        assert(!nonzero(a));
    } else {
        lemma_self_dot_pos(a.drop_last());
        assert(bounded(a.drop_last())) by {
            assert(forall|i: int| 0 <= i < a.len() - 1 ==> a.drop_last()[i] == a[i]);
        }
        let l = a.last() as int;
        assert(l * l >= 0 && (l != 0 ==> l * l >= 1)) by (nonlinear_arith);
        if nonzero(a) {
            let w = choose|i: int| 0 <= i < a.len() && a[i] != 0;
            if w == a.len() - 1 {
                assert(spec_dot(a, a) > 0);
            } else {
                assert(a.drop_last()[w] == a[w]);
                assert(nonzero(a.drop_last()));
            }
        }
    }
}

/// Signed division that truncates toward zero, over a positive divisor.
pub open spec fn div_to_zero(n: int, d: int) -> int
    recommends
        d > 0,
{
    if n >= 0 {
        n / d
    } else {
        -((-n) / d)
    }
}

/// The floor square root: the largest `r` with `r * r <= n`.
pub open spec fn spec_isqrt(n: nat) -> nat
    decreases n,
{
    if n == 0 {
        0
    } else {
        let r = spec_isqrt((n - 1) as nat);
        if (r + 1) * (r + 1) <= n {
            r + 1
        } else {
            r
        }
    }
}

proof fn lemma_isqrt_bounds(n: nat)
    ensures
        spec_isqrt(n) * spec_isqrt(n) <= n,
        n < (spec_isqrt(n) + 1) * (spec_isqrt(n) + 1),
        n >= 1 ==> spec_isqrt(n) >= 1,
    decreases n,
{
    let s = spec_isqrt(n);
    if n == 0 {
        assert(s == 0);
        assert(s * s <= n && n < (s + 1) * (s + 1)) by (nonlinear_arith)
            requires
                s == 0,
                n == 0,
        ;
    } else {
        lemma_isqrt_bounds((n - 1) as nat);
        let r = spec_isqrt((n - 1) as nat);
        if (r + 1) * (r + 1) <= n {
            assert(s == r + 1);
            assert(s * s <= n && n < (s + 1) * (s + 1)) by (nonlinear_arith)
                requires
                    s == r + 1,
                    (r + 1) * (r + 1) <= n,
                    n - 1 < (r + 1) * (r + 1),
            ;
        } else {
            assert(s == r);
            assert(s * s <= n && n < (s + 1) * (s + 1) && s >= 1) by (nonlinear_arith)
                requires
                    s == r,
                    n >= 1,
                    r * r <= n - 1,
                    !((r + 1) * (r + 1) <= n),
            ;
        }
    }
}

proof fn lemma_isqrt_unique(n: nat, r: nat)
    requires
        r * r <= n,
        n < (r + 1) * (r + 1),
    ensures
        r == spec_isqrt(n),
{
    lemma_isqrt_bounds(n);
    let s = spec_isqrt(n);
    if r < s {
        assert((r + 1) * (r + 1) <= s * s) by (nonlinear_arith)
            requires
                r + 1 <= s,
        ;
        assert(false);
    }
    if s < r {
        assert((s + 1) * (s + 1) <= r * r) by (nonlinear_arith)
            requires
                s + 1 <= r,
        ;
        assert(false);
    }
}

/// The floor square root of a 64-bit value, by bisection.
fn isqrt64(n: u64) -> (r: u64)
    ensures
        r as nat == spec_isqrt(n as nat),
        (r as int) * (r as int) <= n as int,
        n >= 1 ==> r >= 1,
{
    let mut lo: u64 = 0;
    let mut hi: u64 = 4_294_967_296;
    proof {
        assert((4_294_967_296 as int) * (4_294_967_296 as int) > u64::MAX as int)
            by (nonlinear_arith);
    }
    while hi - lo > 1
        invariant
            lo < hi <= 4_294_967_296,
            (lo as int) * (lo as int) <= n as int,
            (n as int) < (hi as int) * (hi as int),
        decreases hi - lo,
    {
        let mid = lo + (hi - lo) / 2;
        proof {
            assert((mid as int) * (mid as int) <= (4_294_967_296 as int) * (4_294_967_296 as int))
                by (nonlinear_arith)
                requires
                    0 <= mid as int <= 4_294_967_296 as int,
            ;
            assert((4_294_967_296 as int) * (4_294_967_296 as int) < u128::MAX as int)
                by (nonlinear_arith);
        }
        if (mid as u128) * (mid as u128) <= (n as u128) {
            lo = mid;
        } else {
            hi = mid;
        }
    }
    proof {
        lemma_isqrt_unique(n as nat, lo as nat);
        lemma_isqrt_bounds(n as nat);
    }
    lo
}

/// The fixed-point cosine of two vectors: the dot product carried to
/// [`SCALE`], over the product of the vectors' norms, each norm the floor
/// square root of the self dot product, the quotient truncated toward zero.
/// A vector at [`SCALE`] magnitude scores [`SCALE`] (one) against itself.
pub open spec fn spec_cosine(a: Seq<i64>, b: Seq<i64>) -> int
    recommends
        a.len() == b.len(),
        spec_dot(a, a) > 0,
        spec_dot(b, b) > 0,
{
    div_to_zero(
        spec_dot(a, b) * (SCALE as int),
        (spec_isqrt(spec_dot(a, a) as nat) * spec_isqrt(spec_dot(b, b) as nat)) as int,
    )
}

/// A vector fit for similarity scoring: sized, bounded and non-degenerate.
pub open spec fn vec_wf(a: Seq<i64>) -> bool {
    &&& a.len() <= MAX_DIM
    &&& bounded(a)
    &&& nonzero(a)
}

fn dot(a: &Vec<i64>, b: &Vec<i64>) -> (r: i128)
    requires
        a@.len() == b@.len() <= MAX_DIM,
        bounded(a@),
        bounded(b@),
    ensures
        r as int == spec_dot(a@, b@),
{
    let mut acc: i128 = 0;
    let mut i: usize = 0;
    proof {
        assert(a@.subrange(0, 0) =~= Seq::<i64>::empty());
    }
    while i < a.len()
        invariant
            a@.len() == b@.len() <= MAX_DIM,
            bounded(a@),
            bounded(b@),
            i <= a@.len(),
            acc as int == spec_dot(a@.subrange(0, i as int), b@.subrange(0, i as int)),
        decreases a@.len() - i,
    {
        proof {
            let pa = a@.subrange(0, i as int);
            let pb = b@.subrange(0, i as int);
            assert(bounded(pa) && bounded(pb)) by {
                assert(forall|j: int| 0 <= j < i ==> pa[j] == a@[j] && pb[j] == b@[j]);
            }
            lemma_dot_bound(pa, pb);
            let c = COMP_BOUND as int;
            assert(-c * c <= (a@[i as int] as int) * (b@[i as int] as int) <= c * c)
                by (nonlinear_arith)
                requires
                    -c <= a@[i as int] as int <= c,
                    -c <= b@[i as int] as int <= c,
                    c > 0,
            ;
            assert((MAX_DIM + 1) * c * c < i128::MAX) by (nonlinear_arith)
                requires
                    c == 33_000_000,
                    MAX_DIM == 8192,
            ;
            assert(i as int * c * c <= MAX_DIM as int * c * c) by (nonlinear_arith)
                requires
                    0 <= i as int <= MAX_DIM as int,
                    c * c >= 0,
            ;
            let pa1 = a@.subrange(0, i + 1 as int);
            let pb1 = b@.subrange(0, i + 1 as int);
            assert(pa1.drop_last() =~= pa && pb1.drop_last() =~= pb);
        }
        acc = acc + (a[i] as i128) * (b[i] as i128);
        i = i + 1;
    }
    proof {
        assert(a@.subrange(0, a@.len() as int) =~= a@);
        assert(b@.subrange(0, b@.len() as int) =~= b@);
    }
    acc
}

fn div_trunc(n: i128, d: i128) -> (r: i128)
    requires
        d > 0,
        n > i128::MIN,
    ensures
        r as int == div_to_zero(n as int, d as int),
        n >= 0 ==> 0 <= r <= n,
        n < 0 ==> n <= r <= 0,
{
    if n >= 0 {
        let q: u128 = (n as u128) / (d as u128);
        proof {
            assert(q <= n as u128) by (nonlinear_arith)
                requires
                    d as u128 >= 1,
                    q == (n as u128) / (d as u128),
            ;
        }
        q as i128
    } else {
        let m: i128 = -n;
        let q: u128 = (m as u128) / (d as u128);
        proof {
            assert(q <= m as u128) by (nonlinear_arith)
                requires
                    d as u128 >= 1,
                    q == (m as u128) / (d as u128),
            ;
        }
        -(q as i128)
    }
}

/// The widest magnitude a similarity score can have.
pub open spec fn cos_bound() -> int {
    (MAX_DIM as int) * (COMP_BOUND as int) * (COMP_BOUND as int) * (SCALE as int)
}

/// The similarity of two vectors, exactly [`spec_cosine`].
pub fn cosine_similarity(a: &Vec<i64>, b: &Vec<i64>) -> (r: i128)
    requires
        a@.len() == b@.len(),
        vec_wf(a@),
        vec_wf(b@),
    ensures
        r as int == spec_cosine(a@, b@),
        -cos_bound() <= r as int <= cos_bound(),
{
    let dab = dot(a, b);
    let daa = dot(a, a);
    let dbb = dot(b, b);
    proof {
        lemma_self_dot_pos(a@);
        lemma_self_dot_pos(b@);
        lemma_dot_bound(a@, b@);
        lemma_dot_bound(a@, a@);
        lemma_dot_bound(b@, b@);
        let c = COMP_BOUND as int;
        let m = MAX_DIM as int;
        assert(m * c * c < u64::MAX as int) by (nonlinear_arith)
            requires
                c == 33_000_000,
                m == 8192,
        ;
        assert(m * c * c * (SCALE as int) < i128::MAX) by (nonlinear_arith)
            requires
                c == 33_000_000,
                m == 8192,
                SCALE == 1_000_000,
        ;
        assert(-(m * c * c) * (SCALE as int) <= dab as int * (SCALE as int) <= m * c * c * (
        SCALE as int)) by (nonlinear_arith)
            requires
                -(m * c * c) <= dab as int <= m * c * c,
                SCALE as int > 0,
        ;
    }
    let na = isqrt64(daa as u64);
    let nb = isqrt64(dbb as u64);
    proof {
        let c = COMP_BOUND as int;
        let m = MAX_DIM as int;
        assert(na as int <= 3_000_000_000) by (nonlinear_arith)
            requires
                (na as int) * (na as int) <= m * c * c,
                c == 33_000_000,
                m == 8192,
                na as int >= 0,
        ;
        assert(nb as int <= 3_000_000_000) by (nonlinear_arith)
            requires
                (nb as int) * (nb as int) <= m * c * c,
                c == 33_000_000,
                m == 8192,
                nb as int >= 0,
        ;
        assert(1 <= (na as int) * (nb as int) <= 3_000_000_000 * 3_000_000_000i128)
            by (nonlinear_arith)
            requires
                1 <= na as int <= 3_000_000_000,
                1 <= nb as int <= 3_000_000_000,
        ;
        assert(3_000_000_000 * 3_000_000_000i128 < i128::MAX) by (nonlinear_arith);
    }
    let num: i128 = dab * (SCALE as i128);
    let den: i128 = (na as i128) * (nb as i128);
    div_trunc(num, den)
}

/// The column sum of a batch of vectors.
pub open spec fn spec_col_sum(embs: Seq<Seq<i64>>, col: int) -> int
    decreases embs.len(),
{
    if embs.len() == 0 {
        0
    } else {
        spec_col_sum(embs.drop_last(), col) + embs.last()[col] as int
    }
}

/// The element-wise mean of a non-empty batch of equally sized vectors,
/// truncated toward zero: the reference vector a batch search ranks against.
pub fn mean_pool(embeddings: &Vec<Vec<i64>>) -> (r: Vec<i64>)
    requires
        embeddings@.len() > 0,
        forall|j: int|
            0 <= j < embeddings@.len() ==> (#[trigger] embeddings@[j]@.len())
                == embeddings@[0]@.len(),
        forall|j: int| 0 <= j < embeddings@.len() ==> bounded(#[trigger] embeddings@[j]@),
    ensures
        r@.len() == embeddings@[0]@.len(),
        forall|col: int|
            0 <= col < r@.len() ==> #[trigger] r@[col] as int == div_to_zero(
                spec_col_sum(embs_view(embeddings@), col),
                embeddings@.len() as int,
            ),
{
    let dim = embeddings[0].len();
    let n = embeddings.len();
    let mut out: Vec<i64> = Vec::new();
    let mut col: usize = 0;
    while col < dim
        invariant
            embeddings@.len() == n,
            0 < n,
            forall|j: int|
                0 <= j < embeddings@.len() ==> (#[trigger] embeddings@[j]@.len()) == dim,
            forall|j: int| 0 <= j < embeddings@.len() ==> bounded(#[trigger] embeddings@[j]@),
            col <= dim,
            out@.len() == col,
            forall|c: int|
                0 <= c < col ==> #[trigger] out@[c] as int == div_to_zero(
                    spec_col_sum(embs_view(embeddings@), c),
                    n as int,
                ),
        decreases dim - col,
    {
        let mut acc: i128 = 0;
        let mut j: usize = 0;
        while j < n
            invariant
                embeddings@.len() == n,
                0 < n,
                col < dim,
                forall|jj: int|
                    0 <= jj < embeddings@.len() ==> (#[trigger] embeddings@[jj]@.len()) == dim,
                forall|jj: int| 0 <= jj < embeddings@.len() ==> bounded(#[trigger] embeddings@[jj]@),
                j <= n,
                acc as int == spec_col_sum(embs_view(embeddings@).subrange(0, j as int), col as int),
                -(j as int) * (COMP_BOUND as int) <= acc as int <= (j as int) * (COMP_BOUND as int),
            decreases n - j,
        {
            proof {
                let pv = embs_view(embeddings@).subrange(0, j + 1 as int);
                assert(pv.drop_last() =~= embs_view(embeddings@).subrange(0, j as int));
                assert(pv.last() == embeddings@[j as int]@);
                assert((usize::MAX as int) * (COMP_BOUND as int) + (COMP_BOUND as int)
                    < i128::MAX) by (nonlinear_arith)
                    requires
                        COMP_BOUND == 33_000_000,
                ;
                assert((j as int) * (COMP_BOUND as int) <= (usize::MAX as int) * (
                COMP_BOUND as int)) by (nonlinear_arith)
                    requires
                        0 <= j as int <= usize::MAX as int,
                        COMP_BOUND as int > 0,
                ;
            }
            acc = acc + (embeddings[j][col] as i128);
            j = j + 1;
        }
        proof {
            assert(embs_view(embeddings@).subrange(0, n as int) =~= embs_view(embeddings@));
            // The mean of components bounded by COMP_BOUND is itself so
            // bounded, whatever the batch length: it fits an i64.
            let a = acc as int;
            let nn = n as int;
            let c = COMP_BOUND as int;
            if a >= 0 {
                assert(0 <= a / nn <= c) by (nonlinear_arith)
                    requires
                        0 <= a <= nn * c,
                        nn > 0,
                        c > 0,
                ;
            } else {
                assert(0 <= (-a) / nn <= c) by (nonlinear_arith)
                    requires
                        0 <= -a <= nn * c,
                        nn > 0,
                        c > 0,
                ;
            }
            assert(-c <= div_to_zero(a, nn) <= c);
        }
        let m: i64 = div_trunc(acc, n as i128) as i64;
        out.push(m);
        col = col + 1;
    }
    out
}

/// The contents of a batch of vectors.
pub open spec fn embs_view(embs: Seq<Vec<i64>>) -> Seq<Seq<i64>> {
    embs.map_values(|e: Vec<i64>| e@)
}

} // verus!

use crate::payload::CodePayload;
use crate::strutil::lex_lt;

verus! {

/// The decaying language bonus: `SCALE` halved once per prior selection of
/// the same language (the fixed-point form of one half to the power `n`).
pub open spec fn spec_half_bonus(n: nat) -> int
    decreases n,
{
    if n == 0 {
        SCALE as int
    } else {
        spec_half_bonus((n - 1) as nat) / 2
    }
}

/// The decaying path bonus: `SCALE` multiplied by three quarters once per
/// prior selection of the same path.
pub open spec fn spec_tq_bonus(n: nat) -> int
    decreases n,
{
    if n == 0 {
        SCALE as int
    } else {
        spec_tq_bonus((n - 1) as nat) * 3 / 4
    }
}

proof fn lemma_half_bonus_range(n: nat)
    ensures
        0 <= spec_half_bonus(n) <= SCALE as int,
    decreases n,
{
    if n > 0 {
        lemma_half_bonus_range((n - 1) as nat);
    }
}

proof fn lemma_tq_bonus_range(n: nat)
    ensures
        0 <= spec_tq_bonus(n) <= SCALE as int,
    decreases n,
{
    if n > 0 {
        lemma_tq_bonus_range((n - 1) as nat);
        assert(0 <= spec_tq_bonus((n - 1) as nat) * 3 / 4 <= SCALE as int) by (nonlinear_arith)
            requires
                0 <= spec_tq_bonus((n - 1) as nat) <= SCALE as int,
                SCALE == 1_000_000,
        ;
    }
}

fn half_bonus(n: usize) -> (r: i64)
    ensures
        r as int == spec_half_bonus(n as nat),
        0 <= r <= SCALE,
{
    let mut v: u64 = 1_000_000;
    let mut t: usize = 0;
    proof {
        lemma_half_bonus_range(0);
    }
    while t < n
        invariant
            t <= n,
            v as int == spec_half_bonus(t as nat),
            0 <= v as int <= SCALE as int,
        decreases n - t,
    {
        v = v / 2;
        t = t + 1;
    }
    v as i64
}

fn tq_bonus(n: usize) -> (r: i64)
    ensures
        r as int == spec_tq_bonus(n as nat),
        0 <= r <= SCALE,
{
    let mut v: u64 = 1_000_000;
    let mut t: usize = 0;
    while t < n
        invariant
            t <= n,
            v as int == spec_tq_bonus(t as nat),
            0 <= v as int <= SCALE as int,
        decreases n - t,
    {
        proof {
            assert(0 <= (v as int) * 3 / 4 <= SCALE as int) by (nonlinear_arith)
                requires
                    0 <= v as int <= SCALE as int,
                    SCALE == 1_000_000,
            ;
        }
        v = v * 3 / 4;
        t = t + 1;
    }
    v as i64
}

/// How many selected indices carry the value `x`.
pub open spec fn spec_count(sel: Seq<usize>, items: Seq<Seq<char>>, x: Seq<char>) -> nat
    decreases sel.len(),
{
    if sel.len() == 0 {
        0
    } else {
        spec_count(sel.drop_last(), items, x) + (if items[sel.last() as int] == x {
            1nat
        } else {
            0nat
        })
    }
}

proof fn lemma_count_le_len(sel: Seq<usize>, items: Seq<Seq<char>>, x: Seq<char>)
    ensures
        spec_count(sel, items, x) <= sel.len(),
    decreases sel.len(),
{
    if sel.len() > 0 {
        lemma_count_le_len(sel.drop_last(), items, x);
    }
}

/// The largest similarity between candidate `i` and any already selected
/// item, never below zero.
pub open spec fn spec_max_sim(embs: Seq<Seq<i64>>, sel: Seq<usize>, i: int) -> int
    decreases sel.len(),
{
    if sel.len() == 0 {
        0
    } else {
        let rest = spec_max_sim(embs, sel.drop_last(), i);
        let c = spec_cosine(embs[i], embs[sel.last() as int]);
        if c > rest {
            c
        } else {
            rest
        }
    }
}

/// The combined score of candidate `i` given the already selected `sel`, in
/// doubled units so that no halving truncates: the relevance minus the
/// strongest redundancy (each weighted one half in single units), plus twice
/// each of the two decaying diversity bonuses.  Doubling preserves the
/// ordering of the half-weighted scores exactly; ties arise only at
/// genuinely equal scores.
pub open spec fn spec_mmr_score(
    q: Seq<i64>,
    embs: Seq<Seq<i64>>,
    langs: Seq<Seq<char>>,
    paths: Seq<Seq<char>>,
    sel: Seq<usize>,
    i: int,
) -> int {
    spec_cosine(q, embs[i]) - spec_max_sim(embs, sel, i) + 2 * spec_half_bonus(
        spec_count(sel, langs, langs[i]),
    ) + 2 * spec_tq_bonus(spec_count(sel, paths, paths[i]))
}

/// The unselected candidate below `upto` with the highest score; the earliest
/// wins a tie.
pub open spec fn spec_best_idx(
    q: Seq<i64>,
    embs: Seq<Seq<i64>>,
    langs: Seq<Seq<char>>,
    paths: Seq<Seq<char>>,
    sel: Seq<usize>,
    upto: int,
) -> Option<int>
    decreases upto,
{
    if upto <= 0 {
        None
    } else {
        let prev = spec_best_idx(q, embs, langs, paths, sel, upto - 1);
        let i = upto - 1;
        if sel.contains(i as usize) {
            prev
        } else {
            match prev {
                None => Some(i),
                Some(p) => {
                    if spec_mmr_score(q, embs, langs, paths, sel, i) > spec_mmr_score(
                        q,
                        embs,
                        langs,
                        paths,
                        sel,
                        p,
                    ) {
                        Some(i)
                    } else {
                        Some(p)
                    }
                },
            }
        }
    }
}

/// The greedy selection: while fewer than `k` indices are chosen and a
/// candidate remains, append the best-scoring one.
pub open spec fn spec_mmr_go(
    q: Seq<i64>,
    embs: Seq<Seq<i64>>,
    langs: Seq<Seq<char>>,
    paths: Seq<Seq<char>>,
    sel: Seq<usize>,
    k: int,
) -> Seq<usize>
    decreases k - sel.len(),
{
    if sel.len() >= k {
        sel
    } else {
        match spec_best_idx(q, embs, langs, paths, sel, embs.len() as int) {
            None => sel,
            Some(i) => spec_mmr_go(q, embs, langs, paths, sel.push(i as usize), k),
        }
    }
}

/// The indices MMR keeps: every index when the pool is smaller than `k`,
/// otherwise the greedy selection from an empty start.
pub open spec fn spec_mmr_idxs(
    q: Seq<i64>,
    embs: Seq<Seq<i64>>,
    langs: Seq<Seq<char>>,
    paths: Seq<Seq<char>>,
    k: int,
) -> Seq<usize> {
    if embs.len() < k {
        Seq::new(embs.len(), |i: int| i as usize)
    } else {
        spec_mmr_go(q, embs, langs, paths, Seq::empty(), k)
    }
}

/// Inputs fit for MMR: equally long, bounded, non-degenerate vectors, and one
/// language and path per candidate.
pub open spec fn mmr_wf(
    q: Seq<i64>,
    embs: Seq<Seq<i64>>,
    langs: Seq<Seq<char>>,
    paths: Seq<Seq<char>>,
) -> bool {
    &&& vec_wf(q)
    &&& langs.len() == embs.len()
    &&& paths.len() == embs.len()
    &&& forall|j: int| 0 <= j < embs.len() ==> (#[trigger] embs[j]).len() == q.len()
    &&& forall|j: int| 0 <= j < embs.len() ==> vec_wf(#[trigger] embs[j])
}

fn contains_idx(v: &Vec<usize>, x: usize) -> (r: bool)
    ensures
        r == v@.contains(x),
{
    let mut i: usize = 0;
    while i < v.len()
        invariant
            i <= v@.len(),
            forall|j: int| 0 <= j < i ==> v@[j] != x,
        decreases v@.len() - i,
    {
        if v[i] == x {
            return true;
        }
        i = i + 1;
    }
    false
}

fn count_matches(sel: &Vec<usize>, items: &Vec<String>, x: &String) -> (r: usize)
    requires
        forall|j: int| 0 <= j < sel@.len() ==> (#[trigger] sel@[j]) < items@.len(),
    ensures
        r as nat == spec_count(sel@, crate::payload::strs_view(items@), x@),
        r <= sel@.len(),
{
    let ghost iv = crate::payload::strs_view(items@);
    let mut r: usize = 0;
    let mut j: usize = 0;
    while j < sel.len()
        invariant
            iv == crate::payload::strs_view(items@),
            forall|t: int| 0 <= t < sel@.len() ==> (#[trigger] sel@[t]) < items@.len(),
            j <= sel@.len(),
            r as nat == spec_count(sel@.subrange(0, j as int), iv, x@),
            r <= j,
        decreases sel@.len() - j,
    {
        proof {
            let p1 = sel@.subrange(0, j + 1 as int);
            assert(p1.drop_last() =~= sel@.subrange(0, j as int));
            assert(p1.last() == sel@[j as int]);
        }
        if crate::strutil::string_eq_str(&items[sel[j]], x.as_str()) {
            r = r + 1;
        }
        j = j + 1;
    }
    proof {
        assert(sel@.subrange(0, sel@.len() as int) =~= sel@);
    }
    r
}

fn max_sim(embs: &Vec<Vec<i64>>, sel: &Vec<usize>, i: usize) -> (r: i128)
    requires
        forall|j: int| 0 <= j < embs@.len() ==> vec_wf(#[trigger] embs@[j]@),
        forall|j: int|
            0 <= j < embs@.len() ==> (#[trigger] embs@[j]@).len() == embs@[0]@.len(),
        forall|j: int| 0 <= j < sel@.len() ==> (#[trigger] sel@[j]) < embs@.len(),
        i < embs@.len(),
    ensures
        r as int == spec_max_sim(embs_view(embs@), sel@, i as int),
        -cos_bound() <= r as int <= cos_bound(),
{
    let ghost ev = embs_view(embs@);
    let mut acc: i128 = 0;
    let mut j: usize = 0;
    while j < sel.len()
        invariant
            ev == embs_view(embs@),
            forall|t: int| 0 <= t < embs@.len() ==> vec_wf(#[trigger] embs@[t]@),
            forall|t: int|
                0 <= t < embs@.len() ==> (#[trigger] embs@[t]@).len() == embs@[0]@.len(),
            forall|t: int| 0 <= t < sel@.len() ==> (#[trigger] sel@[t]) < embs@.len(),
            i < embs@.len(),
            j <= sel@.len(),
            acc as int == spec_max_sim(ev, sel@.subrange(0, j as int), i as int),
            -cos_bound() <= acc as int <= cos_bound(),
        decreases sel@.len() - j,
    {
        proof {
            let p1 = sel@.subrange(0, j + 1 as int);
            assert(p1.drop_last() =~= sel@.subrange(0, j as int));
            assert(p1.last() == sel@[j as int]);
        }
        let c = cosine_similarity(&embs[i], &embs[sel[j]]);
        if c > acc {
            acc = c;
        }
        j = j + 1;
    }
    proof {
        assert(sel@.subrange(0, sel@.len() as int) =~= sel@);
    }
    acc
}

fn mmr_score(
    q: &Vec<i64>,
    embs: &Vec<Vec<i64>>,
    langs: &Vec<String>,
    paths: &Vec<String>,
    sel: &Vec<usize>,
    i: usize,
) -> (r: i128)
    requires
        mmr_wf(
            q@,
            embs_view(embs@),
            crate::payload::strs_view(langs@),
            crate::payload::strs_view(paths@),
        ),
        forall|j: int| 0 <= j < sel@.len() ==> (#[trigger] sel@[j]) < embs@.len(),
        i < embs@.len(),
    ensures
        r as int == spec_mmr_score(
            q@,
            embs_view(embs@),
            crate::payload::strs_view(langs@),
            crate::payload::strs_view(paths@),
            sel@,
            i as int,
        ),
{
    proof {
        assert forall|j: int| 0 <= j < embs@.len() implies vec_wf(#[trigger] embs@[j]@) && (
        embs@[j]@).len() == q@.len() by {
            assert(embs_view(embs@)[j] == embs@[j]@);
        }
        assert(embs@[0]@.len() == q@.len());
    }
    let first = cosine_similarity(q, &embs[i]);
    let second = max_sim(embs, sel, i);
    let lang_count = count_matches(sel, langs, &langs[i]);
    let path_count = count_matches(sel, paths, &paths[i]);
    let hb = half_bonus(lang_count);
    let tb = tq_bonus(path_count);
    proof {
        lemma_half_bonus_range(lang_count as nat);
        lemma_tq_bonus_range(path_count as nat);
        assert((MAX_DIM as int) * (COMP_BOUND as int) * (COMP_BOUND as int) * (SCALE as int)
            < i128::MAX / 4) by (nonlinear_arith)
            requires
                MAX_DIM == 8192,
                COMP_BOUND == 33_000_000,
                SCALE == 1_000_000,
        ;
    }
    first - second + 2 * (hb as i128) + 2 * (tb as i128)
}

fn select_next(
    q: &Vec<i64>,
    embs: &Vec<Vec<i64>>,
    langs: &Vec<String>,
    paths: &Vec<String>,
    sel: &Vec<usize>,
) -> (r: Option<usize>)
    requires
        mmr_wf(
            q@,
            embs_view(embs@),
            crate::payload::strs_view(langs@),
            crate::payload::strs_view(paths@),
        ),
        forall|j: int| 0 <= j < sel@.len() ==> (#[trigger] sel@[j]) < embs@.len(),
    ensures
        opt_idx_view(r) == spec_best_idx(
            q@,
            embs_view(embs@),
            crate::payload::strs_view(langs@),
            crate::payload::strs_view(paths@),
            sel@,
            embs@.len() as int,
        ),
        r matches Some(i) ==> i < embs@.len() && !sel@.contains(i),
{
    let ghost ev = embs_view(embs@);
    let ghost lv = crate::payload::strs_view(langs@);
    let ghost pv = crate::payload::strs_view(paths@);
    let mut best: Option<usize> = None;
    let mut best_score: i128 = 0;
    let mut i: usize = 0;
    while i < embs.len()
        invariant
            ev == embs_view(embs@),
            lv == crate::payload::strs_view(langs@),
            pv == crate::payload::strs_view(paths@),
            mmr_wf(q@, ev, lv, pv),
            forall|j: int| 0 <= j < sel@.len() ==> (#[trigger] sel@[j]) < embs@.len(),
            i <= embs@.len(),
            opt_idx_view(best) == spec_best_idx(q@, ev, lv, pv, sel@, i as int),
            best matches Some(b) ==> b < embs@.len() && !sel@.contains(b) && best_score as int
                == spec_mmr_score(q@, ev, lv, pv, sel@, b as int),
        decreases embs@.len() - i,
    {
        if !contains_idx(sel, i) {
            let score = mmr_score(q, embs, langs, paths, sel, i);
            match best {
                None => {
                    best = Some(i);
                    best_score = score;
                },
                Some(_) => {
                    if score > best_score {
                        best = Some(i);
                        best_score = score;
                    }
                },
            }
        }
        i = i + 1;
    }
    best
}

/// The index an `Option<usize>` stands for.
pub open spec fn opt_idx_view(r: Option<usize>) -> Option<int> {
    match r {
        Some(i) => Some(i as int),
        None => None,
    }
}

/// Returns the indices to preserve from a candidate pool: all of them when
/// the pool is smaller than `k`, else up to `k` chosen greedily by combined
/// relevance, novelty and diversity (see [`spec_mmr_score`]).
pub fn deduplicate_with_mmr(
    query_embedding: &Vec<i64>,
    embeddings: &Vec<Vec<i64>>,
    languages: &Vec<String>,
    paths: &Vec<String>,
    k: usize,
) -> (r: Vec<usize>)
    requires
        mmr_wf(
            query_embedding@,
            embs_view(embeddings@),
            crate::payload::strs_view(languages@),
            crate::payload::strs_view(paths@),
        ),
    ensures
        r@ == spec_mmr_idxs(
            query_embedding@,
            embs_view(embeddings@),
            crate::payload::strs_view(languages@),
            crate::payload::strs_view(paths@),
            k as int,
        ),
        forall|j: int| 0 <= j < r@.len() ==> (#[trigger] r@[j]) < embeddings@.len(),
{
    let ghost ev = embs_view(embeddings@);
    let ghost lv = crate::payload::strs_view(languages@);
    let ghost pv = crate::payload::strs_view(paths@);
    let n = embeddings.len();
    if n < k {
        let mut idxs: Vec<usize> = Vec::new();
        let mut i: usize = 0;
        while i < n
            invariant
                i <= n,
                idxs@.len() == i,
                forall|j: int| 0 <= j < i ==> #[trigger] idxs@[j] == j as usize,
            decreases n - i,
        {
            idxs.push(i);
            i = i + 1;
        }
        assert(idxs@ =~= Seq::new(ev.len(), |i: int| i as usize));
        return idxs;
    }
    let mut idxs: Vec<usize> = Vec::new();
    proof {
        assert(idxs@ =~= Seq::<usize>::empty());
    }
    while idxs.len() < k
        invariant
            ev == embs_view(embeddings@),
            lv == crate::payload::strs_view(languages@),
            pv == crate::payload::strs_view(paths@),
            mmr_wf(query_embedding@, ev, lv, pv),
            n == embeddings@.len(),
            n >= k,
            idxs@.len() <= k,
            forall|j: int| 0 <= j < idxs@.len() ==> (#[trigger] idxs@[j]) < embeddings@.len(),
            spec_mmr_go(query_embedding@, ev, lv, pv, Seq::empty(), k as int) == spec_mmr_go(
                query_embedding@,
                ev,
                lv,
                pv,
                idxs@,
                k as int,
            ),
        decreases k - idxs.len(),
    {
        match select_next(query_embedding, embeddings, languages, paths, &idxs) {
            Some(i) => {
                proof {
                    assert(spec_mmr_go(query_embedding@, ev, lv, pv, idxs@, k as int)
                        == spec_mmr_go(query_embedding@, ev, lv, pv, idxs@.push(i), k as int));
                }
                idxs.push(i);
            },
            None => {
                proof {
                    assert(spec_mmr_go(query_embedding@, ev, lv, pv, idxs@, k as int) == idxs@);
                    assert(ev.len() >= k as int);
                    assert(spec_mmr_idxs(query_embedding@, ev, lv, pv, k as int) == spec_mmr_go(
                        query_embedding@,
                        ev,
                        lv,
                        pv,
                        Seq::empty(),
                        k as int,
                    ));
                    assert(idxs@ == spec_mmr_idxs(query_embedding@, ev, lv, pv, k as int));
                }
                return idxs;
            },
        }
    }
    proof {
        assert(spec_mmr_go(query_embedding@, ev, lv, pv, idxs@, k as int) == idxs@);
    }
    idxs
}

} // verus!

verus! {

/// The stage-A pre-sort order: by path, then by legacy start line.
pub open spec fn le_path_line(a: CodePayload, b: CodePayload) -> bool {
    ||| lex_lt(a@.relative_path, b@.relative_path)
    ||| (a@.relative_path == b@.relative_path && a@.start_line <= b@.start_line)
}

/// The stage-A post-sort order: by relevance score, descending; an absent
/// score sorts below every present one.
pub open spec fn le_score_desc(a: CodePayload, b: CodePayload) -> bool {
    match (a@.score, b@.score) {
        (Some(x), Some(y)) => x >= y,
        (Some(_), None) => true,
        (None, None) => true,
        (None, Some(_)) => false,
    }
}

/// Which of the two stage-A orders a sort uses.
#[derive(Clone, Copy, Debug, PartialEq, Eq, Structural)]
pub enum SortOrder {
    PathLine,
    ScoreDesc,
}

/// The chosen order.
pub open spec fn le_by(m: SortOrder, a: CodePayload, b: CodePayload) -> bool {
    match m {
        SortOrder::PathLine => le_path_line(a, b),
        SortOrder::ScoreDesc => le_score_desc(a, b),
    }
}

fn le_by_exec(m: SortOrder, a: &CodePayload, b: &CodePayload) -> (r: bool)
    ensures
        r == le_by(m, *a, *b),
{
    match m {
        SortOrder::PathLine => {
            if crate::strutil::str_lt(a.relative_path.as_str(), b.relative_path.as_str()) {
                true
            } else if crate::strutil::string_eq_str(&a.relative_path, b.relative_path.as_str()) {
                a.start_line <= b.start_line
            } else {
                false
            }
        },
        SortOrder::ScoreDesc => match (&a.score, &b.score) {
            (Some(x), Some(y)) => *x >= *y,
            (Some(_), None) => true,
            (None, None) => true,
            (None, Some(_)) => false,
        },
    }
}

/// `x` placed into the sorted `s`, after every element that does not order
/// strictly after it: the insertion a stable sort makes.
pub open spec fn spec_insert_by(m: SortOrder, x: CodePayload, s: Seq<CodePayload>) -> Seq<
    CodePayload,
>
    decreases s.len(),
{
    if s.len() == 0 {
        seq![x]
    } else if le_by(m, s[0], x) {
        seq![s[0]] + spec_insert_by(m, x, s.skip(1))
    } else {
        seq![x] + s
    }
}

/// The stable sort of `s` under the chosen order: each element inserted in
/// turn, later elements after equal earlier ones.
pub open spec fn spec_sort_by(m: SortOrder, s: Seq<CodePayload>) -> Seq<CodePayload>
    decreases s.len(),
{
    if s.len() == 0 {
        s
    } else {
        spec_insert_by(m, s.last(), spec_sort_by(m, s.drop_last()))
    }
}

proof fn lemma_insert_at(m: SortOrder, x: CodePayload, s: Seq<CodePayload>, j: int)
    requires
        0 <= j <= s.len(),
        forall|t: int| 0 <= t < j ==> le_by(m, #[trigger] s[t], x),
        j < s.len() ==> !le_by(m, s[j], x),
    ensures
        spec_insert_by(m, x, s) == s.insert(j, x),
    decreases j,
{
    if s.len() == 0 {
        assert(spec_insert_by(m, x, s) =~= s.insert(0, x));
    } else if j == 0 {
        assert(spec_insert_by(m, x, s) =~= s.insert(0, x));
    } else {
        assert(le_by(m, s[0], x));
        lemma_insert_at(m, x, s.skip(1), j - 1);
        assert forall|t: int| 0 <= t < j - 1 implies le_by(m, #[trigger] s.skip(1)[t], x) by {
            assert(s.skip(1)[t] == s[t + 1]);
        }
        lemma_insert_at(m, x, s.skip(1), j - 1);
        assert(spec_insert_by(m, x, s) =~= seq![s[0]] + s.skip(1).insert(j - 1, x));
        assert(seq![s[0]] + s.skip(1).insert(j - 1, x) =~= s.insert(j, x));
    }
}

fn insert_by(m: SortOrder, out: &mut Vec<CodePayload>, x: CodePayload)
    ensures
        final(out)@ == spec_insert_by(m, x, old(out)@),
{
    let mut j: usize = 0;
    while j < out.len() && le_by_exec(m, &out[j], &x)
        invariant
            out@ == old(out)@,
            j <= out@.len(),
            forall|t: int| 0 <= t < j ==> le_by(m, #[trigger] out@[t], x),
        decreases out@.len() - j,
    {
        j = j + 1;
    }
    proof {
        lemma_insert_at(m, x, out@, j as int);
    }
    out.insert(j, x);
}

/// The stable sort of the hit list under the chosen order.
pub fn sort_payloads(m: SortOrder, v: Vec<CodePayload>) -> (r: Vec<CodePayload>)
    ensures
        r@ == spec_sort_by(m, v@),
{
    let ghost orig = v@;
    let mut v = v;
    let mut out: Vec<CodePayload> = Vec::new();
    let ghost mut taken: int = 0;
    proof {
        assert(orig.subrange(0, 0) =~= Seq::<CodePayload>::empty());
    }
    while v.len() > 0
        invariant
            0 <= taken <= orig.len(),
            v@ =~= orig.subrange(taken, orig.len() as int),
            out@ == spec_sort_by(m, orig.subrange(0, taken)),
        decreases v@.len(),
    {
        let x = v.remove(0);
        proof {
            let p1 = orig.subrange(0, taken + 1);
            assert(p1.drop_last() =~= orig.subrange(0, taken));
            assert(x == orig[taken]);
            assert(p1.last() == orig[taken]);
        }
        insert_by(m, &mut out, x);
        proof {
            taken = taken + 1;
            assert(v@ =~= orig.subrange(taken, orig.len() as int));
        }
    }
    proof {
        assert(orig.subrange(0, orig.len() as int) =~= orig);
        assert(taken == orig.len());
    }
    out
}

/// The left-to-right overlap fold: a hit is dropped when the hit kept just
/// before it lies in the same file and its legacy end line reaches this hit's
/// start line; same-file overlapping or touching ranges collapse to the
/// earlier one.
pub open spec fn spec_overlap_fold(acc: Seq<CodePayload>, s: Seq<CodePayload>) -> Seq<
    CodePayload,
>
    decreases s.len(),
{
    if s.len() == 0 {
        acc
    } else {
        let x = s[0];
        if acc.len() > 0 && acc.last()@.relative_path == x@.relative_path && acc.last()@.end_line
            >= x@.start_line {
            spec_overlap_fold(acc, s.skip(1))
        } else {
            spec_overlap_fold(acc.push(x), s.skip(1))
        }
    }
}

/// Stage A in full: sort by path and start line, drop overlaps, then order
/// the survivors by descending score.
pub open spec fn spec_stage_a(s: Seq<CodePayload>) -> Seq<CodePayload> {
    spec_sort_by(
        SortOrder::ScoreDesc,
        spec_overlap_fold(Seq::empty(), spec_sort_by(SortOrder::PathLine, s)),
    )
}

/// Removes overlapping snippets: hits sorted by file and position collapse to
/// the first of each overlapping same-file run, and what survives comes back
/// ordered by descending relevance score.
pub fn filter_overlapping_snippets(snippets: Vec<CodePayload>) -> (r: Vec<CodePayload>)
    ensures
        r@ == spec_stage_a(snippets@),
{
    let sorted = sort_payloads(SortOrder::PathLine, snippets);
    let ghost sv = sorted@;
    let mut work = sorted;
    let mut kept: Vec<CodePayload> = Vec::new();
    let ghost mut i: int = 0;
    proof {
        assert(work@ =~= sv.skip(0));
    }
    while work.len() > 0
        invariant
            0 <= i <= sv.len(),
            work@ =~= sv.skip(i),
            spec_overlap_fold(Seq::empty(), sv) == spec_overlap_fold(kept@, sv.skip(i)),
        decreases work@.len(),
    {
        proof {
            assert(sv.skip(i)[0] == sv[i]);
            assert(sv.skip(i).skip(1) =~= sv.skip(i + 1));
        }
        let mut drop_hit = false;
        if kept.len() > 0 {
            let prev = &kept[kept.len() - 1];
            let cur = &work[0];
            if crate::strutil::string_eq_str(&prev.relative_path, cur.relative_path.as_str())
                && prev.end_line >= cur.start_line {
                drop_hit = true;
            }
        }
        let x = work.remove(0);
        if !drop_hit {
            kept.push(x);
        }
        proof {
            i = i + 1;
            assert(work@ =~= sv.skip(i));
        }
    }
    proof {
        assert(i == sv.len());
        assert(sv.skip(i) =~= Seq::<CodePayload>::empty());
    }
    sort_payloads(SortOrder::ScoreDesc, kept)
}

} // verus!

verus! {

/// A hit fit for ranking against the query vector `q`: it carries an
/// embedding of the same dimension, bounded and non-degenerate.
pub open spec fn emb_ok(q: Seq<i64>, p: CodePayload) -> bool {
    match p.embedding {
        Some(e) => e@.len() == q.len() && vec_wf(e@),
        None => false,
    }
}

proof fn lemma_insert_emb_ok(m: SortOrder, x: CodePayload, s: Seq<CodePayload>, q: Seq<i64>)
    requires
        forall|j: int| 0 <= j < s.len() ==> emb_ok(q, #[trigger] s[j]),
        emb_ok(q, x),
    ensures
        forall|j: int|
            0 <= j < spec_insert_by(m, x, s).len() ==> emb_ok(q, #[trigger] spec_insert_by(
                m,
                x,
                s,
            )[j]),
        spec_insert_by(m, x, s).len() == s.len() + 1,
    decreases s.len(),
{
    let r = spec_insert_by(m, x, s);
    if s.len() == 0 {
        assert(r =~= seq![x]);
    } else if le_by(m, s[0], x) {
        assert forall|j: int| 0 <= j < s.skip(1).len() implies emb_ok(
            q,
            #[trigger] s.skip(1)[j],
        ) by {
            assert(s.skip(1)[j] == s[j + 1]);
        }
        lemma_insert_emb_ok(m, x, s.skip(1), q);
        assert forall|j: int| 0 <= j < r.len() implies emb_ok(q, #[trigger] r[j]) by {
            if j > 0 {
                assert(r[j] == spec_insert_by(m, x, s.skip(1))[j - 1]);
            }
        }
    } else {
        assert forall|j: int| 0 <= j < r.len() implies emb_ok(q, #[trigger] r[j]) by {
            if j > 0 {
                assert(r[j] == s[j - 1]);
            }
        }
    }
}

proof fn lemma_sort_emb_ok(m: SortOrder, s: Seq<CodePayload>, q: Seq<i64>)
    requires
        forall|j: int| 0 <= j < s.len() ==> emb_ok(q, #[trigger] s[j]),
    ensures
        forall|j: int|
            0 <= j < spec_sort_by(m, s).len() ==> emb_ok(q, #[trigger] spec_sort_by(m, s)[j]),
        spec_sort_by(m, s).len() == s.len(),
    decreases s.len(),
{
    if s.len() > 0 {
        assert forall|j: int| 0 <= j < s.drop_last().len() implies emb_ok(
            q,
            #[trigger] s.drop_last()[j],
        ) by {
            assert(s.drop_last()[j] == s[j]);
        }
        lemma_sort_emb_ok(m, s.drop_last(), q);
        lemma_insert_emb_ok(m, s.last(), spec_sort_by(m, s.drop_last()), q);
    }
}

proof fn lemma_fold_emb_ok(acc: Seq<CodePayload>, s: Seq<CodePayload>, q: Seq<i64>)
    requires
        forall|j: int| 0 <= j < acc.len() ==> emb_ok(q, #[trigger] acc[j]),
        forall|j: int| 0 <= j < s.len() ==> emb_ok(q, #[trigger] s[j]),
    ensures
        forall|j: int|
            0 <= j < spec_overlap_fold(acc, s).len() ==> emb_ok(
                q,
                #[trigger] spec_overlap_fold(acc, s)[j],
            ),
    decreases s.len(),
{
    if s.len() == 0 {
        assert(spec_overlap_fold(acc, s) == acc);
    } else {
        let x = s[0];
        assert forall|j: int| 0 <= j < s.skip(1).len() implies emb_ok(
            q,
            #[trigger] s.skip(1)[j],
        ) by {
            assert(s.skip(1)[j] == s[j + 1]);
        }
        if acc.len() > 0 && acc.last()@.relative_path == x@.relative_path && acc.last()@.end_line
            >= x@.start_line {
            lemma_fold_emb_ok(acc, s.skip(1), q);
            assert(spec_overlap_fold(acc, s) == spec_overlap_fold(acc, s.skip(1)));
        } else {
            assert forall|j: int| 0 <= j < acc.push(x).len() implies emb_ok(
                q,
                #[trigger] acc.push(x)[j],
            ) by {
                if j < acc.len() {
                    assert(acc.push(x)[j] == acc[j]);
                }
            }
            lemma_fold_emb_ok(acc.push(x), s.skip(1), q);
            assert(spec_overlap_fold(acc, s) == spec_overlap_fold(acc.push(x), s.skip(1)));
        }
    }
}

/// Every stage-A survivor still carries a well-formed embedding.
proof fn lemma_stage_a_emb_ok(s: Seq<CodePayload>, q: Seq<i64>)
    requires
        forall|j: int| 0 <= j < s.len() ==> emb_ok(q, #[trigger] s[j]),
    ensures
        forall|j: int|
            0 <= j < spec_stage_a(s).len() ==> emb_ok(q, #[trigger] spec_stage_a(s)[j]),
{
    lemma_sort_emb_ok(SortOrder::PathLine, s, q);
    lemma_fold_emb_ok(Seq::empty(), spec_sort_by(SortOrder::PathLine, s), q);
    lemma_sort_emb_ok(
        SortOrder::ScoreDesc,
        spec_overlap_fold(Seq::empty(), spec_sort_by(SortOrder::PathLine, s)),
        q,
    );
}

/// The embedding of each hit.
pub open spec fn payload_embs(s: Seq<CodePayload>) -> Seq<Seq<i64>> {
    s.map_values(
        |p: CodePayload|
            match p.embedding {
                Some(e) => e@,
                None => Seq::empty(),
            },
    )
}

/// The language tag of each hit.
pub open spec fn payload_langs(s: Seq<CodePayload>) -> Seq<Seq<char>> {
    s.map_values(|p: CodePayload| p.lang@)
}

/// The path of each hit.
pub open spec fn payload_paths(s: Seq<CodePayload>) -> Seq<Seq<char>> {
    s.map_values(|p: CodePayload| p.relative_path@)
}

/// The elements of `s` whose index from `from` on is kept, in order.
pub open spec fn spec_keep(s: Seq<CodePayload>, idxs: Seq<usize>, from: int) -> Seq<CodePayload>
    decreases s.len() - from,
{
    if from < 0 || from >= s.len() {
        Seq::empty()
    } else {
        (if idxs.contains(from as usize) {
            seq![s[from]]
        } else {
            Seq::empty()
        }) + spec_keep(s, idxs, from + 1)
    }
}

/// What deduplication returns: the stage-A survivors whose index the MMR
/// selection kept, in stage-A order.
pub open spec fn spec_dedupe(s: Seq<CodePayload>, q: Seq<i64>, k: int) -> Seq<CodePayload> {
    let a = spec_stage_a(s);
    let idxs = spec_mmr_idxs(q, payload_embs(a), payload_langs(a), payload_paths(a), k);
    spec_keep(a, idxs, 0)
}

/// Consumes raw scored hits: stage A removes same-file overlapping chunks
/// and re-ranks by score, stage B keeps up to `output_count` of the
/// survivors by MMR.  Every hit must carry a well-formed embedding of the
/// query vector's dimension; validate retrieved records first.
pub fn deduplicate_snippets(
    all_snippets: Vec<CodePayload>,
    query_embedding: Vec<i64>,
    output_count: u64,
) -> (r: Vec<CodePayload>)
    requires
        vec_wf(query_embedding@),
        forall|j: int|
            0 <= j < all_snippets@.len() ==> emb_ok(query_embedding@, #[trigger] all_snippets@[j]),
        output_count <= usize::MAX,
    ensures
        r@ == spec_dedupe(all_snippets@, query_embedding@, output_count as int),
{
    let ghost sv = all_snippets@;
    let ghost q = query_embedding@;
    proof {
        lemma_stage_a_emb_ok(sv, q);
    }
    let a = filter_overlapping_snippets(all_snippets);
    let ghost av = a@;
    let mut embs: Vec<Vec<i64>> = Vec::new();
    let mut langs: Vec<String> = Vec::new();
    let mut paths: Vec<String> = Vec::new();
    let mut i: usize = 0;
    while i < a.len()
        invariant
            av == a@,
            q == query_embedding@,
            forall|j: int| 0 <= j < av.len() ==> emb_ok(q, #[trigger] av[j]),
            i <= av.len(),
            embs@.len() == i,
            langs@.len() == i,
            paths@.len() == i,
            forall|j: int| 0 <= j < i ==> #[trigger] embs@[j]@ == payload_embs(av)[j],
            forall|j: int| 0 <= j < i ==> #[trigger] langs@[j]@ == payload_langs(av)[j],
            forall|j: int| 0 <= j < i ==> #[trigger] paths@[j]@ == payload_paths(av)[j],
        decreases av.len() - i,
    {
        assert(emb_ok(q, av[i as int]));
        match &a[i].embedding {
            Some(e) => {
                embs.push(e.clone());
            },
            None => {
                proof {
                    assert(false);
                }
            },
        }
        langs.push(a[i].lang.clone());
        paths.push(a[i].relative_path.clone());
        i = i + 1;
    }
    let k: usize = if output_count > (usize::MAX as u64) {
        usize::MAX
    } else {
        output_count as usize
    };
    proof {
        assert(embs_view(embs@) =~= payload_embs(av));
        assert(crate::payload::strs_view(langs@) =~= payload_langs(av));
        assert(crate::payload::strs_view(paths@) =~= payload_paths(av));
        assert forall|j: int| 0 <= j < embs@.len() implies vec_wf(#[trigger] embs_view(embs@)[j])
            && (embs_view(embs@)[j]).len() == q.len() by {
            assert(embs_view(embs@)[j] == embs@[j]@);
            assert(embs@[j]@ == payload_embs(av)[j]);
            assert(emb_ok(q, av[j]));
        }
    }
    let idxs = deduplicate_with_mmr(&query_embedding, &embs, &langs, &paths, k);
    let mut out: Vec<CodePayload> = Vec::new();
    let total = a.len();
    assert(av.len() == total);
    let mut work = a;
    let mut pos: usize = 0;
    proof {
        assert(work@ =~= av.subrange(0, av.len() as int));
        assert(spec_keep(av, idxs@, 0) == out@ + spec_keep(av, idxs@, 0));
    }
    while work.len() > 0
        invariant
            av.len() == total,
            0 <= pos <= av.len(),
            work@ =~= av.subrange(pos as int, av.len() as int),
            spec_keep(av, idxs@, 0) == out@ + spec_keep(av, idxs@, pos as int),
        decreases work@.len(),
    {
        let keep = contains_idx(&idxs, pos);
        let x = work.remove(0);
        proof {
            assert(x == av[pos as int]);
        }
        if keep {
            out.push(x);
        }
        assert(pos < av.len());
        pos = pos + 1;
        proof {
            assert(work@ =~= av.subrange(pos as int, av.len() as int));
        }
    }
    out
}

} // verus!

verus! {

broadcast use vstd::seq_lib::group_seq_lib_default;

proof fn lemma_best_props(
    q: Seq<i64>,
    embs: Seq<Seq<i64>>,
    langs: Seq<Seq<char>>,
    paths: Seq<Seq<char>>,
    sel: Seq<usize>,
    upto: int,
)
    ensures
        match spec_best_idx(q, embs, langs, paths, sel, upto) {
            None => forall|i: int| 0 <= i < upto ==> sel.contains(#[trigger] (i as usize)),
            Some(b) => 0 <= b < upto && !sel.contains(b as usize) && forall|i: int|
                0 <= i < upto && !sel.contains(i as usize) ==> spec_mmr_score(
                    q,
                    embs,
                    langs,
                    paths,
                    sel,
                    i,
                ) <= spec_mmr_score(q, embs, langs, paths, sel, b),
        },
    decreases upto,
{
    if upto > 0 {
        lemma_best_props(q, embs, langs, paths, sel, upto - 1);
    }
}

proof fn lemma_go_props(
    q: Seq<i64>,
    embs: Seq<Seq<i64>>,
    langs: Seq<Seq<char>>,
    paths: Seq<Seq<char>>,
    sel: Seq<usize>,
    k: int,
)
    requires
        sel.no_duplicates(),
        forall|j: int| 0 <= j < sel.len() ==> (#[trigger] sel[j]) < embs.len(),
        sel.len() <= k,
    ensures
        ({
            let r = spec_mmr_go(q, embs, langs, paths, sel, k);
            &&& r.no_duplicates()
            &&& forall|j: int| 0 <= j < r.len() ==> (#[trigger] r[j]) < embs.len()
            &&& (r.len() == k || forall|i: int|
                0 <= i < embs.len() ==> r.contains(#[trigger] (i as usize)))
        }),
    decreases k - sel.len(),
{
    let r = spec_mmr_go(q, embs, langs, paths, sel, k);
    if sel.len() >= k {
        assert(r == sel);
    } else {
        lemma_best_props(q, embs, langs, paths, sel, embs.len() as int);
        match spec_best_idx(q, embs, langs, paths, sel, embs.len() as int) {
            None => {
                assert(r == sel);
                assert forall|i: int| 0 <= i < embs.len() implies r.contains(
                    #[trigger] (i as usize),
                ) by {
                    assert(sel.contains(i as usize));
                }
            },
            Some(b) => {
                let sel2 = sel.push(b as usize);
                assert(sel2.no_duplicates()) by {
                    assert(forall|j: int| 0 <= j < sel.len() ==> sel2[j] == sel[j]);
                    assert(sel2.last() == b as usize);
                    assert(!sel.contains(b as usize));
                    assert forall|x: int, y: int|
                        0 <= x < y < sel2.len() implies sel2[x] != sel2[y] by {
                        if y < sel.len() {
                        } else {
                            assert(sel2[y] == b as usize);
                            assert(sel.contains(sel[x]));
                        }
                    }
                }
                assert(forall|j: int| 0 <= j < sel2.len() ==> (#[trigger] sel2[j]) < embs.len());
                lemma_go_props(q, embs, langs, paths, sel2, k);
            },
        }
    }
}

proof fn lemma_keep_all(s: Seq<CodePayload>, idxs: Seq<usize>, from: int)
    requires
        0 <= from <= s.len(),
        forall|i: int| from <= i < s.len() ==> idxs.contains(#[trigger] (i as usize)),
    ensures
        spec_keep(s, idxs, from) == s.skip(from),
    decreases s.len() - from,
{
    if from >= s.len() {
        assert(s.skip(from) =~= Seq::<CodePayload>::empty());
    } else {
        lemma_keep_all(s, idxs, from + 1);
        assert(spec_keep(s, idxs, from) =~= s.skip(from));
    }
}

/// Small-pool passthrough: when the candidate pool that survives the overlap
/// filter is no larger than the asked-for output count, deduplication keeps
/// every candidate.
pub proof fn lemma_dedupe_small_pool(s: Seq<CodePayload>, q: Seq<i64>, k: int)
    requires
        vec_wf(q),
        forall|j: int| 0 <= j < s.len() ==> emb_ok(q, #[trigger] s[j]),
        spec_stage_a(s).len() <= k,
        spec_stage_a(s).len() <= usize::MAX,
    ensures
        spec_dedupe(s, q, k) == spec_stage_a(s),
{
    broadcast use vstd::set_lib::group_set_lib_default;

    let a = spec_stage_a(s);
    let embs = payload_embs(a);
    let langs = payload_langs(a);
    let paths = payload_paths(a);
    let n = a.len();
    let idxs = spec_mmr_idxs(q, embs, langs, paths, k);
    if n < k {
        let idseq = Seq::new(n, |i: int| i as usize);
        assert(idxs == idseq);
        assert forall|i: int| 0 <= i < n implies idxs.contains(#[trigger] (i as usize)) by {
            assert(idseq[i] == i as usize);
        }
        lemma_keep_all(a, idxs, 0);
        assert(a.skip(0) =~= a);
    } else {
        assert(n == k);
        lemma_go_props(q, embs, langs, paths, Seq::empty(), k);
        assert(idxs == spec_mmr_go(q, embs, langs, paths, Seq::empty(), k));
        if idxs.len() == k {
            idxs.unique_seq_to_set();
            let idseq = Seq::new(n, |i: int| i as usize);
            assert forall|x: int, y: int| 0 <= x < y < idseq.len() implies idseq[x] != idseq[y] by {
                assert(idseq[x] == x as usize);
                assert(idseq[y] == y as usize);
            }
            idseq.unique_seq_to_set();
            assert(idxs.to_set().subset_of(idseq.to_set())) by {
                assert forall|u: usize| idxs.to_set().contains(u) implies idseq.to_set().contains(
                    u,
                ) by {
                    assert(idxs.contains(u));
                    let w = choose|w: int| 0 <= w < idxs.len() && idxs[w] == u;
                    assert((u as int) < n);
                    assert(idseq[u as int] == u);
                    assert(idseq.contains(u));
                }
            }
            vstd::set_lib::lemma_subset_equality(idxs.to_set(), idseq.to_set());
            assert forall|i: int| 0 <= i < n implies idxs.contains(#[trigger] (i as usize)) by {
                assert(idseq[i] == i as usize);
                assert(idseq.contains(i as usize));
                assert(idseq.to_set().contains(i as usize));
                assert(idxs.to_set().contains(i as usize));
            }
            lemma_keep_all(a, idxs, 0);
            assert(a.skip(0) =~= a);
        } else {
            assert(forall|i: int| 0 <= i < n ==> idxs.contains(#[trigger] (i as usize)));
            lemma_keep_all(a, idxs, 0);
            assert(a.skip(0) =~= a);
        }
    }
}

/// Language diversity: with near-identical relevance — any two candidates'
/// relevance scores differ by less than half of [`SCALE`] — comparable
/// mutual similarity — any two candidates' similarity to the selected item
/// differs by less than half of [`SCALE`] — and pairwise distinct paths,
/// once an item of some language is selected, the next greedy pick never
/// takes that language again while a candidate of another language remains:
/// the decayed language bonus decides.
pub proof fn lemma_mmr_language_diversity(
    q: Seq<i64>,
    embs: Seq<Seq<i64>>,
    langs: Seq<Seq<char>>,
    paths: Seq<Seq<char>>,
    i0: int,
    jr: int,
)
    requires
        mmr_wf(q, embs, langs, paths),
        embs.len() <= usize::MAX,
        0 <= i0 < embs.len(),
        0 <= jr < embs.len(),
        jr != i0,
        langs[jr] != langs[i0],
        forall|a: int, b: int|
            0 <= a < embs.len() && 0 <= b < embs.len() ==> spec_cosine(q, #[trigger] embs[a])
                - spec_cosine(q, #[trigger] embs[b]) < (SCALE as int) / 2,
        forall|a: int, b: int|
            0 <= a < embs.len() && 0 <= b < embs.len() ==> spec_cosine(#[trigger] embs[a], embs[i0])
                - spec_cosine(#[trigger] embs[b], embs[i0]) < (SCALE as int) / 2,
        forall|a: int, b: int|
            0 <= a < embs.len() && 0 <= b < embs.len() && a != b ==> (#[trigger] paths[a])
                != (#[trigger] paths[b]),
    ensures
        spec_best_idx(q, embs, langs, paths, seq![i0 as usize], embs.len() as int) matches Some(b)
            && langs[b] != langs[i0],
{
    let n = embs.len() as int;
    let sel = seq![i0 as usize];
    assert(sel.len() == 1);
    assert(sel[0] == i0 as usize);
    assert forall|x: usize| sel.contains(x) implies x == i0 as usize by {
        let w = choose|w: int| 0 <= w < sel.len() && sel[w] == x;
    }
    // Each unselected candidate's score, term by term: its relevance, its
    // redundancy against the one selected item, and the bonuses.
    assert forall|x: int| 0 <= x < n && x != i0 implies spec_mmr_score(
        q,
        embs,
        langs,
        paths,
        sel,
        x,
    ) == spec_cosine(q, embs[x]) - (if spec_cosine(embs[x], embs[i0]) > 0 {
        spec_cosine(embs[x], embs[i0])
    } else {
        0
    }) + 2 * spec_half_bonus(if langs[x] == langs[i0] {
        1nat
    } else {
        0nat
    }) + 2 * spec_tq_bonus(0) by {
        assert(sel.drop_last() =~= Seq::<usize>::empty());
        assert(spec_max_sim(embs, sel, x) == (if spec_cosine(embs[x], embs[i0]) > 0 {
            spec_cosine(embs[x], embs[i0])
        } else {
            0
        })) by {
            assert(spec_max_sim(embs, Seq::<usize>::empty(), x) == 0);
            assert(sel.last() == i0 as usize);
        }
        assert(spec_count(sel, langs, langs[x]) == (if langs[x] == langs[i0] {
            1nat
        } else {
            0nat
        })) by {
            assert(spec_count(sel.drop_last(), langs, langs[x]) == 0);
        }
        assert(spec_count(sel, paths, paths[x]) == 0) by {
            assert(spec_count(sel.drop_last(), paths, paths[x]) == 0);
            assert(paths[i0] != paths[x]);
        }
    }
    assert(spec_half_bonus(0) == 1_000_000);
    assert(spec_half_bonus(1) == 500_000);
    assert(spec_tq_bonus(0) == 1_000_000);
    lemma_best_props(q, embs, langs, paths, sel, n);
    assert(!sel.contains(jr as usize));
    match spec_best_idx(q, embs, langs, paths, sel, n) {
        None => {
            assert(sel.contains(jr as usize));
            assert(false);
        },
        Some(b) => {
            if langs[b] == langs[i0] {
                assert(b != i0) by {
                    assert(!sel.contains(b as usize));
                }
                assert(spec_mmr_score(q, embs, langs, paths, sel, jr) <= spec_mmr_score(
                    q,
                    embs,
                    langs,
                    paths,
                    sel,
                    b,
                ));
                // The fresh language's full bonus outweighs the combined
                // relevance deficit and redundancy surplus, each below half
                // a fixed-point unit.
                let cjr = spec_cosine(embs[jr], embs[i0]);
                let cb = spec_cosine(embs[b], embs[i0]);
                let mjr: int = if cjr > 0 {
                    cjr
                } else {
                    0
                };
                let mb: int = if cb > 0 {
                    cb
                } else {
                    0
                };
                assert(cjr - cb < 500_000);
                assert(mjr - mb < 500_000);
                assert(spec_mmr_score(q, embs, langs, paths, sel, jr) - spec_mmr_score(
                    q,
                    embs,
                    langs,
                    paths,
                    sel,
                    b,
                ) == spec_cosine(q, embs[jr]) - spec_cosine(q, embs[b]) + (mb - mjr) + 1_000_000);
                assert(spec_cosine(q, embs[b]) - spec_cosine(q, embs[jr]) < 500_000);
                assert(false);
            }
        },
    }
}

} // verus!
