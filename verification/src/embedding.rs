use vstd::prelude::*;
use crate::error::StoreError;
use crate::{COMP_BOUND, MAX_DIM};

verus! {

/// Largest magnitude a dot product of two well-formed embeddings can reach:
/// `MAX_DIM * COMP_BOUND * COMP_BOUND`.
pub const DOT_BOUND: i64 = 409600000000;

/// A point in one of the collection's vector spaces: an ordered, fixed-length
/// sequence of scalar components. Components are bounded integers, so every
/// similarity comparison below is exact.
#[derive(Debug, Clone, PartialEq, Eq)]
pub struct Embedding {
    pub components: Vec<i64>,
}

/// The dot product of two component sequences.
pub open spec fn dot_spec(a: Seq<i64>, b: Seq<i64>) -> int
    recommends
        a.len() == b.len(),
    decreases a.len(),
{
    if a.len() == 0 {
        0
    } else {
        dot_spec(a.drop_last(), b.drop_last()) + (a.last() as int) * (b.last() as int)
    }
}

/// All components lie within `COMP_BOUND`.
pub open spec fn components_bounded(a: Seq<i64>) -> bool {
    forall|i: int| 0 <= i < a.len() ==> -COMP_BOUND <= #[trigger] a[i] <= COMP_BOUND
}

impl Embedding {
    pub open spec fn wf(self) -> bool {
        &&& self.components@.len() <= MAX_DIM
        &&& components_bounded(self.components@)
    }

    /// Builds an embedding, rejecting lengths or components the similarity
    /// arithmetic cannot carry.
    pub fn new(components: Vec<i64>) -> (r: Result<Embedding, StoreError>)
        ensures
            r is Ok <==> components@.len() <= MAX_DIM && components_bounded(components@),
            r is Ok ==> r->Ok_0.components@ == components@ && r->Ok_0.wf(),
            r is Err ==> r->Err_0 is SchemaMismatch,
    {
        if components.len() as u64 > MAX_DIM {
            return Err(StoreError::SchemaMismatch("embedding has too many components".to_owned()));
        }
        let n = components.len();
        for i in 0..n
            invariant
                n == components@.len(),
                forall|k: int| 0 <= k < i ==> -COMP_BOUND <= #[trigger] components@[k] <= COMP_BOUND,
        {
            let c = components[i];
            if c < -COMP_BOUND || c > COMP_BOUND {
                return Err(
                    StoreError::SchemaMismatch("embedding component out of range".to_owned()),
                );
            }
        }
        Ok(Embedding { components })
    }

    pub fn dim(&self) -> (r: usize)
        ensures
            r == self.components@.len(),
    {
        self.components.len()
    }
}

proof fn lemma_abs_mul_bound(a: int, b: int, ba: int, bb: int)
    by (nonlinear_arith)
    requires
        -ba <= a <= ba,
        -bb <= b <= bb,
        0 <= ba,
        0 <= bb,
    ensures
        -(ba * bb) <= a * b <= ba * bb,
{
}

proof fn lemma_dot_spec_bound(a: Seq<i64>, b: Seq<i64>)
    requires
        a.len() == b.len(),
        components_bounded(a),
        components_bounded(b),
    ensures
        -(a.len() * (COMP_BOUND * COMP_BOUND)) <= dot_spec(a, b) <= a.len() * (COMP_BOUND
            * COMP_BOUND),
    decreases a.len(),
{
    if a.len() > 0 {
        lemma_dot_spec_bound(a.drop_last(), b.drop_last());
        lemma_abs_mul_bound(a.last() as int, b.last() as int, COMP_BOUND as int, COMP_BOUND as int);
    }
}

proof fn lemma_norm_nonneg(a: Seq<i64>)
    ensures
        dot_spec(a, a) >= 0,
    decreases a.len(),
{
    if a.len() > 0 {
        lemma_norm_nonneg(a.drop_last());
        assert((a.last() as int) * (a.last() as int) >= 0) by (nonlinear_arith);
    }
}

proof fn lemma_norm_zero(a: Seq<i64>)
    requires
        dot_spec(a, a) == 0,
    ensures
        forall|i: int| 0 <= i < a.len() ==> a[i] == 0,
    decreases a.len(),
{
    if a.len() > 0 {
        lemma_norm_nonneg(a.drop_last());
        assert((a.last() as int) * (a.last() as int) >= 0) by (nonlinear_arith);
        assert(dot_spec(a.drop_last(), a.drop_last()) == 0);
        assert((a.last() as int) * (a.last() as int) == 0 ==> a.last() == 0) by (nonlinear_arith);
        lemma_norm_zero(a.drop_last());
        assert forall|i: int| 0 <= i < a.len() implies a[i] == 0 by {
            if i < a.len() - 1 {
                assert(a.drop_last()[i] == 0);
                assert(a[i] == a.drop_last()[i]);
            } else {
                assert(a[i] == a.last());
            }
        }
    }
}

proof fn lemma_dot_zero(a: Seq<i64>, b: Seq<i64>)
    requires
        a.len() == b.len(),
        forall|i: int| 0 <= i < a.len() ==> a[i] == 0 || b[i] == 0,
    ensures
        dot_spec(a, b) == 0,
    decreases a.len(),
{
    if a.len() > 0 {
        lemma_dot_zero(a.drop_last(), b.drop_last());
        assert(a.last() == 0 || b.last() == 0);
        assert((a.last() as int) * (b.last() as int) == 0) by (nonlinear_arith)
            requires
                a.last() == 0 || b.last() == 0,
        ;
    }
}

/// The exact dot product of two equally long, well-formed component vectors.
pub fn dot(a: &Vec<i64>, b: &Vec<i64>) -> (r: i64)
    requires
        a@.len() == b@.len(),
        a@.len() <= MAX_DIM,
        components_bounded(a@),
        components_bounded(b@),
    ensures
        r as int == dot_spec(a@, b@),
        -DOT_BOUND <= r <= DOT_BOUND,
{
    let n = a.len();
    let mut acc: i64 = 0;
    let mut i: usize = 0;
    while i < n
        invariant
            n == a@.len() == b@.len(),
            n <= MAX_DIM,
            components_bounded(a@),
            components_bounded(b@),
            i <= n,
            acc as int == dot_spec(a@.take(i as int), b@.take(i as int)),
            -(i as int) * 100000000 <= acc as int <= (i as int) * 100000000,
        decreases n - i,
    {
        proof {
            lemma_abs_mul_bound(a@[i as int] as int, b@[i as int] as int, COMP_BOUND as int,
                COMP_BOUND as int);
            assert(COMP_BOUND as int * COMP_BOUND as int == 100000000);
            assert(a@.take(i + 1).drop_last() =~= a@.take(i as int));
            assert(b@.take(i + 1).drop_last() =~= b@.take(i as int));
            assert((i as int + 1) * 100000000 == (i as int) * 100000000 + 100000000);
            assert((i as int) * 100000000 <= 4096 * 100000000);
        }
        acc = acc + a[i] * b[i];
        i += 1;
    }
    proof {
        assert(a@.take(n as int) =~= a@);
        assert(b@.take(n as int) =~= b@);
        assert((n as int) * 100000000 <= 409600000000);
    }
    acc
}

/// The exact similarity of a stored vector to a query vector: the cosine of
/// the two is `dot / sqrt(qn * vn)`, kept here unevaluated so that every
/// comparison and every test of equality with one is exact integer
/// arithmetic.
#[derive(Debug, Clone, Copy, PartialEq, Eq, Structural)]
pub struct Similarity {
    /// Dot product of query and stored vector.
    pub dot: i64,
    /// Squared norm of the query vector.
    pub qn: i64,
    /// Squared norm of the stored vector.
    pub vn: i64,
}

impl Similarity {
    pub open spec fn wf(self) -> bool {
        &&& -DOT_BOUND <= self.dot <= DOT_BOUND
        &&& 0 <= self.qn <= DOT_BOUND
        &&& 0 <= self.vn <= DOT_BOUND
        &&& (self.qn == 0 ==> self.dot == 0)
        &&& (self.vn == 0 ==> self.dot == 0)
    }

    /// The cosine this similarity denotes equals exactly one: the stored
    /// vector is a positive multiple of the query vector.
    pub open spec fn spec_is_one(self) -> bool {
        self.dot > 0 && (self.dot as int) * (self.dot as int) == (self.qn as int) * (
        self.vn as int)
    }

    pub fn is_one(&self) -> (r: bool)
        requires
            self.wf(),
        ensures
            r == self.spec_is_one(),
    {
        proof {
            lemma_abs_mul_bound(self.dot as int, self.dot as int, DOT_BOUND as int,
                DOT_BOUND as int);
            lemma_abs_mul_bound(self.qn as int, self.vn as int, DOT_BOUND as int, DOT_BOUND as int);
        }
        self.dot > 0 && (self.dot as i128) * (self.dot as i128) == (self.qn as i128) * (
        self.vn as i128)
    }
}

/// Sign of the cosine denoted by `(d, qn, vn)`; a degenerate (zero-norm) pair
/// counts as zero.
pub open spec fn cos_sign(d: int, qn: int, vn: int) -> int {
    if qn <= 0 || vn <= 0 {
        0
    } else if d > 0 {
        1
    } else if d < 0 {
        -1
    } else {
        0
    }
}

/// Exact order on similarities: the cosine denoted by `a` is at most the
/// cosine denoted by `b`. Stated by sign comparison and cross-multiplied
/// squares, which is the rational form of `a.dot / sqrt(a.qn * a.vn) <=
/// b.dot / sqrt(b.qn * b.vn)`.
pub open spec fn sim_le(a: Similarity, b: Similarity) -> bool {
    let sa = cos_sign(a.dot as int, a.qn as int, a.vn as int);
    let sb = cos_sign(b.dot as int, b.qn as int, b.vn as int);
    if sa != sb {
        sa < sb
    } else if sa == 1 {
        (a.dot as int) * (a.dot as int) * ((b.qn as int) * (b.vn as int)) <= (b.dot as int) * (
        b.dot as int) * ((a.qn as int) * (a.vn as int))
    } else if sa == -1 {
        (b.dot as int) * (b.dot as int) * ((a.qn as int) * (a.vn as int)) <= (a.dot as int) * (
        a.dot as int) * ((b.qn as int) * (b.vn as int))
    } else {
        true
    }
}

proof fn lemma_scale_le_equiv(q: int, x: int, y: int)
    by (nonlinear_arith)
    requires
        q > 0,
    ensures
        (x <= y) <==> (x * q <= y * q),
{
}

/// Computes and compares the two sides of one query's result order. Both
/// similarities come from the same query vector, so their `qn` agree.
pub fn sim_le_exec(a: &Similarity, b: &Similarity) -> (r: bool)
    requires
        a.wf(),
        b.wf(),
        a.qn == b.qn,
    ensures
        r == sim_le(*a, *b),
{
    let sa: i64 = if a.dot > 0 {
        1
    } else if a.dot < 0 {
        -1
    } else {
        0
    };
    let sb: i64 = if b.dot > 0 {
        1
    } else if b.dot < 0 {
        -1
    } else {
        0
    };
    proof {
        assert(sa as int == cos_sign(a.dot as int, a.qn as int, a.vn as int));
        assert(sb as int == cos_sign(b.dot as int, b.qn as int, b.vn as int));
    }
    if sa != sb {
        return sa < sb;
    }
    if sa == 0 {
        return true;
    }
    // Same nonzero sign: the shared query norm is positive and cancels.
    proof {
        lemma_abs_mul_bound(a.dot as int, a.dot as int, DOT_BOUND as int, DOT_BOUND as int);
        lemma_abs_mul_bound(b.dot as int, b.dot as int, DOT_BOUND as int, DOT_BOUND as int);
        lemma_abs_mul_bound(
            (a.dot as int) * (a.dot as int),
            b.vn as int,
            DOT_BOUND as int * DOT_BOUND as int,
            DOT_BOUND as int,
        );
        lemma_abs_mul_bound(
            (b.dot as int) * (b.dot as int),
            a.vn as int,
            DOT_BOUND as int * DOT_BOUND as int,
            DOT_BOUND as int,
        );
    }
    let lhs: i128 = (a.dot as i128) * (a.dot as i128) * (b.vn as i128);
    let rhs: i128 = (b.dot as i128) * (b.dot as i128) * (a.vn as i128);
    proof {
        assert(a.qn > 0 && a.vn > 0 && b.qn > 0 && b.vn > 0);
        let q = a.qn as int;
        let x = (a.dot as int) * (a.dot as int) * (b.vn as int);
        let y = (b.dot as int) * (b.dot as int) * (a.vn as int);
        assert(lhs as int == x && rhs as int == y);
        lemma_scale_le_equiv(q, x, y);
        lemma_scale_le_equiv(q, y, x);
        assert(x * q == (a.dot as int) * (a.dot as int) * ((b.qn as int) * (b.vn as int)))
            by (nonlinear_arith)
            requires
                q == a.qn as int,
                a.qn == b.qn,
                x == (a.dot as int) * (a.dot as int) * (b.vn as int),
        ;
        assert(y * q == (b.dot as int) * (b.dot as int) * ((a.qn as int) * (a.vn as int)))
            by (nonlinear_arith)
            requires
                q == a.qn as int,
                a.qn == b.qn,
                y == (b.dot as int) * (b.dot as int) * (a.vn as int),
        ;
    }
    if sa == 1 {
        lhs <= rhs
    } else {
        rhs <= lhs
    }
}

/// The similarity order is total.
pub proof fn lemma_sim_le_total(a: Similarity, b: Similarity)
    ensures
        sim_le(a, b) || sim_le(b, a),
{
}

/// The similarity order is transitive.
pub proof fn lemma_sim_le_trans(a: Similarity, b: Similarity, c: Similarity)
    requires
        sim_le(a, b),
        sim_le(b, c),
    ensures
        sim_le(a, c),
{
    let sa = cos_sign(a.dot as int, a.qn as int, a.vn as int);
    let sb = cos_sign(b.dot as int, b.qn as int, b.vn as int);
    let sc = cos_sign(c.dot as int, c.qn as int, c.vn as int);
    let da = a.dot as int;
    let db = b.dot as int;
    let dc = c.dot as int;
    let qa = (a.qn as int) * (a.vn as int);
    let qb = (b.qn as int) * (b.vn as int);
    let qc = (c.qn as int) * (c.vn as int);
    if sa == sb && sb == sc {
        if sa == 1 {
            assert(qa > 0 && qb > 0 && qc > 0) by (nonlinear_arith)
                requires
                    sa == 1 && sb == 1 && sc == 1,
                    sa == cos_sign(a.dot as int, a.qn as int, a.vn as int),
                    sb == cos_sign(b.dot as int, b.qn as int, b.vn as int),
                    sc == cos_sign(c.dot as int, c.qn as int, c.vn as int),
                    qa == (a.qn as int) * (a.vn as int),
                    qb == (b.qn as int) * (b.vn as int),
                    qc == (c.qn as int) * (c.vn as int),
            ;
            assert(da * da * qc <= dc * dc * qa) by (nonlinear_arith)
                requires
                    da * da * qb <= db * db * qa,
                    db * db * qc <= dc * dc * qb,
                    qa > 0,
                    qb > 0,
                    qc > 0,
            ;
        } else if sa == -1 {
            assert(qa > 0 && qb > 0 && qc > 0) by (nonlinear_arith)
                requires
                    sa == -1 && sb == -1 && sc == -1,
                    sa == cos_sign(a.dot as int, a.qn as int, a.vn as int),
                    sb == cos_sign(b.dot as int, b.qn as int, b.vn as int),
                    sc == cos_sign(c.dot as int, c.qn as int, c.vn as int),
                    qa == (a.qn as int) * (a.vn as int),
                    qb == (b.qn as int) * (b.vn as int),
                    qc == (c.qn as int) * (c.vn as int),
            ;
            assert(dc * dc * qa <= da * da * qc) by (nonlinear_arith)
                requires
                    db * db * qa <= da * da * qb,
                    dc * dc * qb <= db * db * qc,
                    qa > 0,
                    qb > 0,
                    qc > 0,
            ;
        }
    }
}

/// The similarity of stored components `v` to query components `q`, as a
/// value.
pub open spec fn sim_of(q: Seq<i64>, v: Seq<i64>) -> Similarity {
    Similarity {
        dot: dot_spec(q, v) as i64,
        qn: dot_spec(q, q) as i64,
        vn: dot_spec(v, v) as i64,
    }
}

/// The exact similarity of stored vector `v` to query vector `q`.
pub fn score_of(q: &Embedding, v: &Embedding) -> (r: Similarity)
    requires
        q.wf(),
        v.wf(),
        q.components@.len() == v.components@.len(),
    ensures
        r == sim_of(q.components@, v.components@),
        r.dot as int == dot_spec(q.components@, v.components@),
        r.qn as int == dot_spec(q.components@, q.components@),
        r.vn as int == dot_spec(v.components@, v.components@),
        r.wf(),
{
    let d = dot(&q.components, &v.components);
    let qn = dot(&q.components, &q.components);
    let vn = dot(&v.components, &v.components);
    proof {
        lemma_norm_nonneg(q.components@);
        lemma_norm_nonneg(v.components@);
        if qn == 0 {
            lemma_norm_zero(q.components@);
            lemma_dot_zero(q.components@, v.components@);
        }
        if vn == 0 {
            lemma_norm_zero(v.components@);
            lemma_dot_zero(q.components@, v.components@);
        }
    }
    Similarity { dot: d, qn, vn }
}

/// A query vector compared against itself scores exactly one, provided it is
/// not the zero vector.
pub proof fn lemma_self_score_is_one(s: Similarity)
    requires
        s.dot == s.qn == s.vn,
        s.qn > 0,
    ensures
        s.spec_is_one(),
{
}

} // verus!
