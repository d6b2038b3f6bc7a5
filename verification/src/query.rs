use vstd::prelude::*;
use crate::embedding::{score_of, sim_le, sim_le_exec, sim_of, Embedding, Similarity};
use crate::embedding::{lemma_sim_le_total, lemma_sim_le_trans};
use crate::error::StoreError;
use crate::payload::Payload;
use crate::schema::{QuerySpace, VectorSchema};
use crate::store::{ids_unique, vector_for, NamedVectors, PointRecord, QdrantClient};

verus! {

/// One row of a query result: the record's identifier, its exact similarity
/// to the query vector, and, when requested, the record's payload and
/// vectors.
#[derive(Debug, Clone, Copy)]
pub struct ScoredPoint<'a> {
    pub id: u128,
    pub score: Similarity,
    pub payload: Option<&'a Payload>,
    pub vectors: Option<&'a NamedVectors>,
}

/// The similarity of record `p`'s vector in the space `space` to the query
/// vector `q`.
pub open spec fn point_score(p: PointRecord, q: Seq<i64>, space: QuerySpace) -> Similarity {
    sim_of(q, vector_for(p.vectors, space)->Some_0.components@)
}

/// Row `e` reports record `points[k]`, scored against `q` in `space`, with
/// payload and vectors present exactly when requested.
pub open spec fn represents(
    points: Seq<PointRecord>,
    k: int,
    e: ScoredPoint,
    q: Seq<i64>,
    space: QuerySpace,
    with_payload: bool,
    with_vectors: bool,
) -> bool {
    &&& 0 <= k < points.len()
    &&& e.id == points[k].id
    &&& e.score == point_score(points[k], q, space)
    &&& match e.payload {
        Some(p) => with_payload && *p == points[k].payload,
        None => !with_payload,
    }
    &&& match e.vectors {
        Some(v) => with_vectors && *v == points[k].vectors,
        None => !with_vectors,
    }
}

/// Row `e` reports some record of `points`.
pub open spec fn entry_ok(
    points: Seq<PointRecord>,
    e: ScoredPoint,
    q: Seq<i64>,
    space: QuerySpace,
    with_payload: bool,
    with_vectors: bool,
) -> bool {
    exists|k: int| represents(points, k, e, q, space, with_payload, with_vectors)
}

pub open spec fn has_entry_id(s: Seq<ScoredPoint>, id: u128) -> bool {
    exists|j: int| 0 <= j < s.len() && s[j].id == id
}

/// The full contract of one top-`limit` similarity query over `points`:
/// at most `limit` rows, sorted by descending similarity, each row reporting
/// a distinct stored record exactly, and no omitted record scoring above any
/// returned row. With `limit` at least the number of records, every record is
/// returned.
pub open spec fn ranked(
    points: Seq<PointRecord>,
    r: Seq<ScoredPoint>,
    q: Seq<i64>,
    space: QuerySpace,
    limit: int,
    with_payload: bool,
    with_vectors: bool,
) -> bool {
    &&& r.len() == vstd::math::min(limit, points.len() as int)
    &&& forall|j1: int, j2: int| 0 <= j1 < j2 < r.len() ==> sim_le(r[j2].score, r[j1].score)
    &&& forall|j: int| 0 <= j < r.len() ==> entry_ok(points, #[trigger] r[j], q, space, with_payload, with_vectors)
    &&& forall|j1: int, j2: int| 0 <= j1 < j2 < r.len() ==> r[j1].id != r[j2].id
    &&& forall|k: int|
        0 <= k < points.len() ==> has_entry_id(r, (#[trigger] points[k]).id) || (forall|j: int|
            0 <= j < r.len() ==> sim_le(point_score(points[k], q, space), (#[trigger] r[j]).score))
    &&& limit >= points.len() ==> forall|k: int|
        0 <= k < points.len() ==> has_entry_id(r, (#[trigger] points[k]).id)
}

/// The vector of `v` living in the space `space`, when `v` has one.
fn space_vector<'a>(v: &'a NamedVectors, space: QuerySpace) -> (r: Option<&'a Embedding>)
    ensures
        match r {
            Some(e) => vector_for(*v, space) == Some(*e),
            None => vector_for(*v, space) is None,
        },
{
    match v {
        NamedVectors::Single(e) => match space {
            QuerySpace::Unnamed => Some(e),
            _ => None,
        },
        NamedVectors::Dual { image, text } => match space {
            QuerySpace::Unnamed => None,
            QuerySpace::Image => Some(image),
            QuerySpace::Text => Some(text),
        },
    }
}

/// Scores every record against the query vector and returns the `limit` best
/// rows, best first.
pub fn rank_points<'a>(
    points: &'a Vec<PointRecord>,
    query: &Embedding,
    space: QuerySpace,
    limit: u64,
    with_payload: bool,
    with_vectors: bool,
) -> (r: Vec<ScoredPoint<'a>>)
    requires
        query.wf(),
        ids_unique(points@),
        forall|k: int|
            0 <= k < points@.len() ==> {
                let v = vector_for((#[trigger] points@[k]).vectors, space);
                v is Some && v->Some_0.wf() && v->Some_0.components@.len()
                    == query.components@.len()
            },
    ensures
        ranked(
            points@,
            r@,
            query.components@,
            space,
            limit as int,
            with_payload,
            with_vectors,
        ),
{
    let ghost q = query.components@;
    let n = points.len();
    let mut rem: Vec<ScoredPoint<'a>> = Vec::new();
    let mut k: usize = 0;
    while k < n
        invariant
            n == points@.len(),
            query.wf(),
            k <= n,
            q == query.components@,
            rem@.len() == k,
            forall|k2: int|
                0 <= k2 < points@.len() ==> {
                    let v = vector_for((#[trigger] points@[k2]).vectors, space);
                    v is Some && v->Some_0.wf() && v->Some_0.components@.len()
                        == query.components@.len()
                },
            forall|j: int|
                0 <= j < k ==> represents(
                    points@,
                    j,
                    #[trigger] rem@[j],
                    q,
                    space,
                    with_payload,
                    with_vectors,
                ),
            forall|j: int| 0 <= j < k ==> (#[trigger] rem@[j]).id == points@[j].id,
            forall|j: int|
                0 <= j < k ==> (#[trigger] rem@[j]).score.wf() && rem@[j].score.qn as int
                    == crate::embedding::dot_spec(q, q),
        decreases n - k,
    {
        let p = &points[k];
        let v = match space_vector(&p.vectors, space) {
            Some(v) => v,
            None => {
                proof {
                    assert(false);
                }
                vstd::pervasive::unreached()
            },
        };
        let s = score_of(query, v);
        rem.push(
            ScoredPoint {
                id: p.id,
                score: s,
                payload: if with_payload {
                    Some(&p.payload)
                } else {
                    None
                },
                vectors: if with_vectors {
                    Some(&p.vectors)
                } else {
                    None
                },
            },
        );
        k += 1;
    }
    proof {
        assert forall|k2: int| 0 <= k2 < points@.len() implies has_entry_id(
            rem@,
            (#[trigger] points@[k2]).id,
        ) by {
            assert(rem@[k2].id == points@[k2].id);
        }
    }
    let mut out: Vec<ScoredPoint<'a>> = Vec::new();
    while (out.len() as u64) < limit && rem.len() > 0
        invariant
            ids_unique(points@),
            out@.len() + rem@.len() == points@.len(),
            out@.len() <= limit,
            // every row, kept or pending, reports some record, exactly
            forall|j: int|
                0 <= j < out@.len() ==> entry_ok(
                    points@,
                    #[trigger] out@[j],
                    q,
                    space,
                    with_payload,
                    with_vectors,
                ),
            forall|t: int|
                0 <= t < rem@.len() ==> entry_ok(
                    points@,
                    #[trigger] rem@[t],
                    q,
                    space,
                    with_payload,
                    with_vectors,
                ),
            // identifiers distinct within and across the two row sets
            forall|j1: int, j2: int| 0 <= j1 < j2 < out@.len() ==> out@[j1].id != out@[j2].id,
            forall|t1: int, t2: int| 0 <= t1 < t2 < rem@.len() ==> rem@[t1].id != rem@[t2].id,
            forall|j: int, t: int|
                0 <= j < out@.len() && 0 <= t < rem@.len() ==> out@[j].id != rem@[t].id,
            // every record appears in one of the two row sets
            forall|k2: int|
                0 <= k2 < points@.len() ==> has_entry_id(out@, (#[trigger] points@[k2]).id)
                    || has_entry_id(rem@, points@[k2].id),
            // kept rows are sorted and dominate every pending row
            forall|j1: int, j2: int|
                0 <= j1 < j2 < out@.len() ==> sim_le(out@[j2].score, out@[j1].score),
            forall|j: int, t: int|
                0 <= j < out@.len() && 0 <= t < rem@.len() ==> sim_le(
                    rem@[t].score,
                    out@[j].score,
                ),
            forall|t: int|
                0 <= t < rem@.len() ==> (#[trigger] rem@[t]).score.wf() && rem@[t].score.qn as int
                    == crate::embedding::dot_spec(q, q),
        decreases rem@.len(),
    {
        let mut best: usize = 0;
        let mut t: usize = 1;
        while t < rem.len()
            invariant
                rem@.len() > 0,
                best < t <= rem@.len(),
                forall|t2: int|
                    0 <= t2 < rem@.len() ==> (#[trigger] rem@[t2]).score.wf()
                        && rem@[t2].score.qn as int == crate::embedding::dot_spec(q, q),
                forall|t2: int|
                    0 <= t2 < t ==> sim_le((#[trigger] rem@[t2]).score, rem@[best as int].score),
            decreases rem@.len() - t,
        {
            if sim_le_exec(&rem[best].score, &rem[t].score) {
                proof {
                    let ghost old_best = best as int;
                    assert forall|t2: int| 0 <= t2 < t + 1 implies sim_le(
                        (#[trigger] rem@[t2]).score,
                        rem@[t as int].score,
                    ) by {
                        if t2 < t {
                            lemma_sim_le_trans(
                                rem@[t2].score,
                                rem@[old_best].score,
                                rem@[t as int].score,
                            );
                        }
                    }
                }
                best = t;
            } else {
                proof {
                    lemma_sim_le_total(rem@[best as int].score, rem@[t as int].score);
                }
            }
            t += 1;
        }
        let ghost pre_out = out@;
        let ghost pre_rem = rem@;
        let chosen = rem.remove(best);
        out.push(chosen);
        proof {
            assert(chosen == pre_rem[best as int]);
            assert(out@ == pre_out.push(chosen));
            assert forall|k2: int| 0 <= k2 < points@.len() implies has_entry_id(
                out@,
                (#[trigger] points@[k2]).id,
            ) || has_entry_id(rem@, points@[k2].id) by {
                let id = points@[k2].id;
                if has_entry_id(pre_out, id) {
                    let j = choose|j: int| 0 <= j < pre_out.len() && pre_out[j].id == id;
                    assert(out@[j].id == id);
                } else {
                    assert(has_entry_id(pre_rem, id));
                    let t = choose|t: int| 0 <= t < pre_rem.len() && pre_rem[t].id == id;
                    if t == best as int {
                        assert(out@[pre_out.len() as int].id == id);
                    } else if t < best as int {
                        assert(rem@[t] == pre_rem[t]);
                        assert(rem@[t].id == id);
                    } else {
                        assert(rem@[t - 1] == pre_rem[t]);
                        assert(rem@[t - 1].id == id);
                    }
                }
            }
        }
    }
    proof {
        assert(out@.len() == vstd::math::min(limit as int, points@.len() as int));
        assert forall|k2: int|
            0 <= k2 < points@.len() && !has_entry_id(out@, (#[trigger] points@[k2]).id) implies (
        forall|j: int|
            0 <= j < out@.len() ==> sim_le(
                point_score(points@[k2], q, space),
                (#[trigger] out@[j]).score,
            )) by {
            assert(has_entry_id(rem@, points@[k2].id));
            let t = choose|t: int| 0 <= t < rem@.len() && rem@[t].id == points@[k2].id;
            let kk = choose|kk: int|
                represents(points@, kk, rem@[t], q, space, with_payload, with_vectors);
            assert(points@[kk].id == points@[k2].id);
            assert(kk == k2);
            assert(rem@[t].score == point_score(points@[k2], q, space));
        }
        if limit >= points@.len() {
            assert(rem@.len() == 0);
        }
    }
    out
}

/// Joins the two halves of a dual query: the pair of both results when both
/// sub-queries succeeded, and the first failure otherwise. A failed half is
/// never replaced by an empty result.
pub fn join_dual<T>(image: Result<T, StoreError>, text: Result<T, StoreError>) -> (r: Result<
    (T, T),
    StoreError,
>)
    ensures
        r is Ok <==> image is Ok && text is Ok,
        r is Ok ==> r->Ok_0.0 == image->Ok_0 && r->Ok_0.1 == text->Ok_0,
        r is Err ==> (image is Err ==> r->Err_0 == image->Err_0) && (image is Ok ==> text is Err
            && r->Err_0 == text->Err_0),
{
    match (image, text) {
        (Ok(a), Ok(b)) => Ok((a, b)),
        (Err(e), _) => Err(e),
        (Ok(_), Err(e)) => Err(e),
    }
}

/// The query vector fits the space `space` of schema `s`.
pub open spec fn space_ok(s: VectorSchema, space: QuerySpace, len: int) -> bool {
    match s {
        VectorSchema::Single { dim, .. } => space is Unnamed && len == dim,
        VectorSchema::Named { image_dim, text_dim, .. } => (space is Image && len == image_dim) || (
        space is Text && len == text_dim),
    }
}

impl QdrantClient {
    /// One top-`limit` similarity query, scoped to one vector space of one
    /// collection; rows carry payload and vectors only when asked for.
    pub fn query_points_scoped<'a>(
        &'a self,
        collection_name: &str,
        vector: &Embedding,
        limit: u64,
        space: QuerySpace,
        with_payload: bool,
        with_vectors: bool,
    ) -> (r: Result<Vec<ScoredPoint<'a>>, StoreError>)
        requires
            self.wf(),
            vector.wf(),
        ensures
            r is Ok <==> self.spec_has_collection(collection_name@) && space_ok(
                self.spec_collection(collection_name@).schema,
                space,
                vector.components@.len() as int,
            ),
            r is Err ==> (if !self.spec_has_collection(collection_name@) {
                r->Err_0 is NotFound
            } else {
                r->Err_0 is SchemaMismatch
            }),
            r is Ok ==> ranked(
                self.spec_collection(collection_name@).points@,
                r->Ok_0@,
                vector.components@,
                space,
                limit as int,
                with_payload,
                with_vectors,
            ),
    {
        let found = self.find_collection(collection_name);
        match found {
            None => Err(StoreError::NotFound("no such collection".to_owned())),
            Some(i) => {
                proof {
                    let idx = self.spec_collection_idx(collection_name@);
                    assert(0 <= idx < self.collections@.len() && self.collections@[idx].name@
                        == collection_name@);
                    assert(idx == i as int);
                }
                let col = &self.collections[i];
                let fits = match &col.schema {
                    VectorSchema::Single { dim, .. } => matches!(space, QuerySpace::Unnamed)
                        && vector.dim() as u64 == *dim,
                    VectorSchema::Named { image_dim, text_dim, .. } => match space {
                        QuerySpace::Unnamed => false,
                        QuerySpace::Image => vector.dim() as u64 == *image_dim,
                        QuerySpace::Text => vector.dim() as u64 == *text_dim,
                    },
                };
                if !fits {
                    return Err(
                        StoreError::SchemaMismatch(
                            "query vector does not fit the collection schema".to_owned(),
                        ),
                    );
                }
                proof {
                    assert forall|k: int| 0 <= k < col.points@.len() implies {
                        let v = vector_for((#[trigger] col.points@[k]).vectors, space);
                        v is Some && v->Some_0.wf() && v->Some_0.components@.len()
                            == vector.components@.len()
                    } by {
                        assert(crate::store::matches_schema(col.points@[k].vectors, col.schema));
                    }
                }
                Ok(rank_points(&col.points, vector, space, limit, with_payload, with_vectors))
            },
        }
    }

    /// Top-`limit` query against a simple collection's unnamed vector space,
    /// with payload and vectors included.
    pub fn query_points<'a>(&'a self, collection_name: &str, vector: &Embedding, limit: u64) -> (r:
        Result<Vec<ScoredPoint<'a>>, StoreError>)
        requires
            self.wf(),
            vector.wf(),
        ensures
            r is Ok <==> self.spec_has_collection(collection_name@) && space_ok(
                self.spec_collection(collection_name@).schema,
                QuerySpace::Unnamed,
                vector.components@.len() as int,
            ),
            r is Err ==> (if !self.spec_has_collection(collection_name@) {
                r->Err_0 is NotFound
            } else {
                r->Err_0 is SchemaMismatch
            }),
            r is Ok ==> ranked(
                self.spec_collection(collection_name@).points@,
                r->Ok_0@,
                vector.components@,
                QuerySpace::Unnamed,
                limit as int,
                true,
                true,
            ),
    {
        self.query_points_scoped(collection_name, vector, limit, QuerySpace::Unnamed, true, true)
    }

    /// Top-`limit` query scoped to one named vector space; rows carry
    /// neither payload nor vectors.
    pub fn query_points_named<'a>(
        &'a self,
        collection_name: &str,
        vector: &Embedding,
        limit: u64,
        vector_name: QuerySpace,
    ) -> (r: Result<Vec<ScoredPoint<'a>>, StoreError>)
        requires
            self.wf(),
            vector.wf(),
        ensures
            r is Ok <==> self.spec_has_collection(collection_name@) && space_ok(
                self.spec_collection(collection_name@).schema,
                vector_name,
                vector.components@.len() as int,
            ),
            r is Err ==> (if !self.spec_has_collection(collection_name@) {
                r->Err_0 is NotFound
            } else {
                r->Err_0 is SchemaMismatch
            }),
            r is Ok ==> ranked(
                self.spec_collection(collection_name@).points@,
                r->Ok_0@,
                vector.components@,
                vector_name,
                limit as int,
                false,
                false,
            ),
    {
        self.query_points_scoped(collection_name, vector, limit, vector_name, false, false)
    }

    /// The Dual-Vector Query Coordinator: two independent top-`limit`
    /// queries against the same collection, one per named space, returned as
    /// a pair (image first, text second), correlated only by space. Either
    /// sub-query's failure fails the whole call; one half is never silently
    /// emptied by the other's failure.
    pub fn query_points_multivector<'a>(
        &'a self,
        collection_name: &str,
        image_vector: &Embedding,
        text_vector: &Embedding,
        limit: u64,
    ) -> (r: Result<(Vec<ScoredPoint<'a>>, Vec<ScoredPoint<'a>>), StoreError>)
        requires
            self.wf(),
            image_vector.wf(),
            text_vector.wf(),
        ensures
            r is Ok <==> self.spec_has_collection(collection_name@) && space_ok(
                self.spec_collection(collection_name@).schema,
                QuerySpace::Image,
                image_vector.components@.len() as int,
            ) && space_ok(
                self.spec_collection(collection_name@).schema,
                QuerySpace::Text,
                text_vector.components@.len() as int,
            ),
            r is Err ==> (if !self.spec_has_collection(collection_name@) {
                r->Err_0 is NotFound
            } else {
                r->Err_0 is SchemaMismatch
            }),
            r is Ok ==> ranked(
                self.spec_collection(collection_name@).points@,
                r->Ok_0.0@,
                image_vector.components@,
                QuerySpace::Image,
                limit as int,
                true,
                true,
            ) && ranked(
                self.spec_collection(collection_name@).points@,
                r->Ok_0.1@,
                text_vector.components@,
                QuerySpace::Text,
                limit as int,
                true,
                true,
            ),
    {
        let image_side = self.query_points_scoped(
            collection_name,
            image_vector,
            limit,
            QuerySpace::Image,
            true,
            true,
        );
        let text_side = self.query_points_scoped(
            collection_name,
            text_vector,
            limit,
            QuerySpace::Text,
            true,
            true,
        );
        join_dual(image_side, text_side)
    }

    /// Top-`limit` query against the unnamed space without payloads.
    pub fn search_points<'a>(&'a self, collection_name: &str, vector: &Embedding, limit: u64) -> (r:
        Result<Vec<ScoredPoint<'a>>, StoreError>)
        requires
            self.wf(),
            vector.wf(),
        ensures
            r is Ok <==> self.spec_has_collection(collection_name@) && space_ok(
                self.spec_collection(collection_name@).schema,
                QuerySpace::Unnamed,
                vector.components@.len() as int,
            ),
            r is Err ==> (if !self.spec_has_collection(collection_name@) {
                r->Err_0 is NotFound
            } else {
                r->Err_0 is SchemaMismatch
            }),
            r is Ok ==> ranked(
                self.spec_collection(collection_name@).points@,
                r->Ok_0@,
                vector.components@,
                QuerySpace::Unnamed,
                limit as int,
                false,
                false,
            ),
    {
        self.query_points_scoped(collection_name, vector, limit, QuerySpace::Unnamed, false, false)
    }

    /// One `search_points` per query vector, against one collection; the
    /// i-th result set answers the i-th vector. Fails as a whole when any
    /// vector does not fit.
    pub fn search_batch_points<'a>(
        &'a self,
        collection_name: &str,
        vectors: &Vec<Embedding>,
        limit: u64,
    ) -> (r: Result<Vec<Vec<ScoredPoint<'a>>>, StoreError>)
        requires
            self.wf(),
            forall|i: int| 0 <= i < vectors@.len() ==> (#[trigger] vectors@[i]).wf(),
        ensures
            r is Ok <==> self.spec_has_collection(collection_name@) && (forall|i: int|
                0 <= i < vectors@.len() ==> space_ok(
                    self.spec_collection(collection_name@).schema,
                    QuerySpace::Unnamed,
                    (#[trigger] vectors@[i]).components@.len() as int,
                )),
            r is Err ==> (if !self.spec_has_collection(collection_name@) {
                r->Err_0 is NotFound
            } else {
                r->Err_0 is SchemaMismatch
            }),
            r is Ok ==> r->Ok_0@.len() == vectors@.len() && (forall|i: int|
                0 <= i < vectors@.len() ==> ranked(
                    self.spec_collection(collection_name@).points@,
                    (#[trigger] r->Ok_0@[i])@,
                    vectors@[i].components@,
                    QuerySpace::Unnamed,
                    limit as int,
                    false,
                    false,
                )),
    {
        if self.find_collection(collection_name).is_none() {
            return Err(StoreError::NotFound("no such collection".to_owned()));
        }
        let mut out: Vec<Vec<ScoredPoint<'a>>> = Vec::new();
        let n = vectors.len();
        for i in 0..n
            invariant
                n == vectors@.len(),
                self.wf(),
                self.spec_has_collection(collection_name@),
                forall|j: int| 0 <= j < vectors@.len() ==> (#[trigger] vectors@[j]).wf(),
                out@.len() == i,
                forall|j: int|
                    0 <= j < i ==> space_ok(
                        self.spec_collection(collection_name@).schema,
                        QuerySpace::Unnamed,
                        (#[trigger] vectors@[j]).components@.len() as int,
                    ),
                forall|j: int|
                    0 <= j < i ==> ranked(
                        self.spec_collection(collection_name@).points@,
                        (#[trigger] out@[j])@,
                        vectors@[j].components@,
                        QuerySpace::Unnamed,
                        limit as int,
                        false,
                        false,
                    ),
        {
            match self.search_points(collection_name, &vectors[i], limit) {
                Ok(rows) => {
                    out.push(rows);
                },
                Err(e) => {
                    return Err(e);
                },
            }
        }
        Ok(out)
    }
}

} // verus!
