use vstd::prelude::*;
use crate::embedding::Embedding;
use crate::error::StoreError;
use crate::payload::Payload;
use crate::schema::VectorSchema;
use crate::store::{
    has_id, ids_unique, idx_of_id, matches_schema, upsert_spec, Collection, NamedVectors,
    PointRecord, QdrantClient,
};

verus! {

/// Relies on uuid::Uuid::new_v4: a freshly drawn random identifier. Only the
/// version nibble (4) and the variant bits (binary 10) are fixed; the rest is
/// random, so nothing more holds of every outcome.
#[verifier::external_body]
fn fresh_point_id() -> (r: u128)
    ensures
        r & 0xF0000000000000000000 == 0x40000000000000000000,
        r & 0xC000000000000000 == 0x8000000000000000,
{
    uuid::Uuid::new_v4().as_u128()
}

/// What a batch of writes leaves behind, one record at a time, in order.
pub open spec fn upsert_all(s: Seq<PointRecord>, ps: Seq<PointRecord>) -> Seq<PointRecord>
    decreases ps.len(),
{
    if ps.len() == 0 {
        s
    } else {
        upsert_all(upsert_spec(s, ps[0]), ps.skip(1))
    }
}

pub proof fn lemma_upsert_all_snoc(s: Seq<PointRecord>, ps: Seq<PointRecord>, p: PointRecord)
    ensures
        upsert_all(s, ps.push(p)) == upsert_spec(upsert_all(s, ps), p),
    decreases ps.len(),
{
    if ps.len() == 0 {
        assert(ps.push(p)[0] == p);
        assert(ps.push(p).skip(1) =~= Seq::<PointRecord>::empty());
        assert(upsert_all(upsert_spec(s, p), Seq::<PointRecord>::empty()) == upsert_spec(s, p));
        assert(upsert_all(s, ps) == s);
    } else {
        assert(ps.push(p)[0] == ps[0]);
        assert(ps.push(p).skip(1) =~= ps.skip(1).push(p));
        lemma_upsert_all_snoc(upsert_spec(s, ps[0]), ps.skip(1), p);
        assert(upsert_all(s, ps.push(p)) == upsert_all(upsert_spec(s, ps[0]), ps.skip(1).push(p)));
        assert(upsert_all(s, ps) == upsert_all(upsert_spec(s, ps[0]), ps.skip(1)));
    }
}

/// A write keeps record identifiers pairwise distinct.
pub proof fn lemma_upsert_keeps_wf_ids(s: Seq<PointRecord>, p: PointRecord)
    requires
        ids_unique(s),
    ensures
        ids_unique(upsert_spec(s, p)),
{
    if has_id(s, p.id) {
        let j = idx_of_id(s, p.id);
        assert(0 <= j < s.len() && s[j].id == p.id);
    }
}

/// A write never breaks a collection's well-formedness, as long as the new
/// record matches the schema.
proof fn lemma_upsert_preserves(s: Seq<PointRecord>, p: PointRecord, schema: VectorSchema)
    requires
        ids_unique(s),
        forall|i: int|
            0 <= i < s.len() ==> matches_schema((#[trigger] s[i]).vectors, schema)
                && s[i].payload.wf(),
        matches_schema(p.vectors, schema),
        p.payload.wf(),
    ensures
        ids_unique(upsert_spec(s, p)),
        forall|i: int|
            0 <= i < upsert_spec(s, p).len() ==> matches_schema(
                (#[trigger] upsert_spec(s, p)[i]).vectors,
                schema,
            ) && upsert_spec(s, p)[i].payload.wf(),
        upsert_spec(s, p).len() == if has_id(s, p.id) {
            s.len() as int
        } else {
            s.len() as int + 1
        },
{
    if has_id(s, p.id) {
        let j = idx_of_id(s, p.id);
        assert(0 <= j < s.len() && s[j].id == p.id);
    }
}

/// Stores one record: replaces the record carrying the same identifier, or
/// appends when the identifier is new.
fn insert_point(points: &mut Vec<PointRecord>, p: PointRecord)
    requires
        ids_unique(old(points)@),
    ensures
        final(points)@ == upsert_spec(old(points)@, p),
{
    let n = points.len();
    let mut i: usize = 0;
    while i < n
        invariant
            n == points@.len(),
            points@ == old(points)@,
            i <= n,
            forall|k: int| 0 <= k < i ==> points@[k].id != p.id,
            ids_unique(points@),
        decreases n - i,
    {
        if points[i].id == p.id {
            let ghost pre = points@;
            proof {
                assert(has_id(pre, p.id));
                let j = idx_of_id(pre, p.id);
                assert(0 <= j < pre.len() && pre[j].id == p.id);
                assert(j == i as int);
            }
            points.remove(i);
            points.insert(i, p);
            proof {
                assert(points@ =~= pre.update(i as int, p));
            }
            return ;
        }
        i += 1;
    }
    assert(!has_id(points@, p.id));
    points.push(p);
}

impl QdrantClient {
    /// One write of the Multivector Record Writer: packages the image vector
    /// under the space "image" and the text vector under the space "text"
    /// into a single new record with a freshly generated identifier and the
    /// supplied payload, acknowledged only once stored.
    pub fn upsert_points_multivector(
        &mut self,
        collection_name: &str,
        vec_img: Embedding,
        vec_txt: Embedding,
        payload: Payload,
    ) -> (r: Result<u128, StoreError>)
        requires
            old(self).wf(),
            vec_img.wf(),
            vec_txt.wf(),
            payload.wf(),
        ensures
            final(self).wf(),
            final(self).url@ == old(self).url@,
            r is Ok <==> old(self).spec_has_collection(collection_name@) && matches_schema(
                NamedVectors::Dual { image: vec_img, text: vec_txt },
                old(self).spec_collection(collection_name@).schema,
            ),
            r is Err ==> *final(self) == *old(self) && (if !old(self).spec_has_collection(
                collection_name@,
            ) {
                r->Err_0 is NotFound
            } else {
                r->Err_0 is SchemaMismatch
            }),
            r is Ok ==> {
                let idx = old(self).spec_collection_idx(collection_name@);
                let rec = PointRecord {
                    id: r->Ok_0,
                    vectors: NamedVectors::Dual { image: vec_img, text: vec_txt },
                    payload,
                };
                &&& final(self).collections@.len() == old(self).collections@.len()
                &&& forall|j: int|
                    0 <= j < old(self).collections@.len() && j != idx
                        ==> final(self).collections@[j] == old(self).collections@[j]
                &&& final(self).collections@[idx].name@ == old(self).collections@[idx].name@
                &&& final(self).collections@[idx].schema == old(self).collections@[idx].schema
                &&& final(self).collections@[idx].points@ == upsert_spec(
                    old(self).collections@[idx].points@,
                    rec,
                )
            },
    {
        let found = self.find_collection(collection_name);
        match found {
            None => Err(StoreError::NotFound("no such collection".to_owned())),
            Some(i) => {
                proof {
                    let idx = self.spec_collection_idx(collection_name@);
                    assert(0 <= idx < self.collections@.len() && self.collections@[idx].name@
                        == collection_name@);
                    assert(idx == i as int);
                }
                let dims_ok = match &self.collections[i].schema {
                    VectorSchema::Named { image_dim, text_dim, .. } => vec_img.dim() as u64
                        == *image_dim && vec_txt.dim() as u64 == *text_dim,
                    VectorSchema::Single { .. } => false,
                };
                if !dims_ok {
                    return Err(
                        StoreError::SchemaMismatch(
                            "vectors do not fit the collection schema".to_owned(),
                        ),
                    );
                }
                let id = fresh_point_id();
                let rec = PointRecord {
                    id,
                    vectors: NamedVectors::Dual { image: vec_img, text: vec_txt },
                    payload,
                };
                let ghost pre = self.collections@;
                let mut col = self.collections.remove(i);
                let ghost prepoints = col.points@;
                proof {
                    lemma_upsert_preserves(prepoints, rec, col.schema);
                }
                insert_point(&mut col.points, rec);
                self.collections.insert(i, col);
                proof {
                    assert(self.collections@ =~= pre.update(
                        i as int,
                        Collection {
                            name: pre[i as int].name,
                            schema: pre[i as int].schema,
                            points: self.collections@[i as int].points,
                        },
                    ));
                }
                Ok(id)
            },
        }
    }

    /// Stores one record per embedding/payload pair, paired positionally; a
    /// surplus of either side is ignored. Every embedding must fit the
    /// collection's single unnamed vector space.
    pub fn upsert_points(
        &mut self,
        collection_name: &str,
        embeddings: Vec<Embedding>,
        payload: Vec<Payload>,
    ) -> (r: Result<Vec<u128>, StoreError>)
        requires
            old(self).wf(),
            forall|i: int| 0 <= i < embeddings@.len() ==> (#[trigger] embeddings@[i]).wf(),
            forall|i: int| 0 <= i < payload@.len() ==> (#[trigger] payload@[i]).wf(),
        ensures
            final(self).wf(),
            final(self).url@ == old(self).url@,
            ({
                let n = vstd::math::min(embeddings@.len() as int, payload@.len() as int);
                &&& (r is Ok <==> old(self).spec_has_collection(collection_name@) && (forall|
                    i: int,
                |
                    0 <= i < n ==> matches_schema(
                        NamedVectors::Single(#[trigger] embeddings@[i]),
                        old(self).spec_collection(collection_name@).schema,
                    )))
                &&& (r is Err ==> *final(self) == *old(self) && (if !old(
                    self,
                ).spec_has_collection(collection_name@) {
                    r->Err_0 is NotFound
                } else {
                    r->Err_0 is SchemaMismatch
                }))
                &&& (r is Ok ==> {
                    let idx = old(self).spec_collection_idx(collection_name@);
                    let recs = Seq::new(
                        n as nat,
                        |j: int|
                            PointRecord {
                                id: r->Ok_0@[j],
                                vectors: NamedVectors::Single(embeddings@[j]),
                                payload: payload@[j],
                            },
                    );
                    &&& r->Ok_0@.len() == n
                    &&& final(self).collections@.len() == old(self).collections@.len()
                    &&& forall|j: int|
                        0 <= j < old(self).collections@.len() && j != idx
                            ==> final(self).collections@[j] == old(self).collections@[j]
                    &&& final(self).collections@[idx].name@ == old(self).collections@[idx].name@
                    &&& final(self).collections@[idx].schema == old(self).collections@[idx].schema
                    &&& final(self).collections@[idx].points@ == upsert_all(
                        old(self).collections@[idx].points@,
                        recs,
                    )
                })
            }),
    {
        let n = if embeddings.len() <= payload.len() {
            embeddings.len()
        } else {
            payload.len()
        };
        let found = self.find_collection(collection_name);
        match found {
            None => Err(StoreError::NotFound("no such collection".to_owned())),
            Some(i) => {
                proof {
                    let idx = self.spec_collection_idx(collection_name@);
                    assert(0 <= idx < self.collections@.len() && self.collections@[idx].name@
                        == collection_name@);
                    assert(idx == i as int);
                }
                if n == 0 {
                    return Ok(Vec::new());
                }
                let dim = match &self.collections[i].schema {
                    VectorSchema::Single { dim, .. } => *dim,
                    VectorSchema::Named { .. } => {
                        proof {
                            assert(!matches_schema(
                                NamedVectors::Single(embeddings@[0]),
                                self.spec_collection(collection_name@).schema,
                            ));
                        }
                        return Err(
                            StoreError::SchemaMismatch(
                                "collection expects named vectors".to_owned(),
                            ),
                        );
                    },
                };
                let mut k: usize = 0;
                while k < n
                    invariant
                        *self == *old(self),
                        old(self).wf(),
                        n as int == vstd::math::min(embeddings@.len() as int, payload@.len() as int),
                        n <= embeddings@.len(),
                        i < self.collections@.len(),
                        i as int == self.spec_collection_idx(collection_name@),
                        self.collections@[i as int].name@ == collection_name@,
                        self.collections@[i as int].schema is Single,
                        self.collections@[i as int].schema->Single_dim == dim,
                        k <= n,
                        forall|j: int|
                            0 <= j < k ==> (#[trigger] embeddings@[j]).components@.len() == dim,
                        forall|j: int| 0 <= j < embeddings@.len() ==> (#[trigger] embeddings@[j]).wf(),
                    decreases n - k,
                {
                    if embeddings[k].dim() as u64 != dim {
                        proof {
                            let schema0 = old(self).spec_collection(collection_name@).schema;
                            assert(schema0 is Single && schema0->Single_dim == dim);
                            assert(embeddings@[k as int].components@.len() != dim);
                            assert(!matches_schema(
                                NamedVectors::Single(embeddings@[k as int]),
                                schema0,
                            ));
                            let nn = vstd::math::min(
                                embeddings@.len() as int,
                                payload@.len() as int,
                            );
                            assert(!(forall|j: int|
                                0 <= j < nn ==> matches_schema(
                                    NamedVectors::Single(#[trigger] embeddings@[j]),
                                    schema0,
                                )));
                        }
                        return Err(
                            StoreError::SchemaMismatch(
                                "vector does not fit the collection schema".to_owned(),
                            ),
                        );
                    }
                    k += 1;
                }
                let ghost pre = self.collections@;
                let ghost all_embeddings = embeddings@;
                let ghost all_payloads = payload@;
                let mut embeddings = embeddings;
                let mut payload = payload;
                let mut ids: Vec<u128> = Vec::new();
                let ghost mut recs: Seq<PointRecord> = Seq::empty();
                let mut col = self.collections.remove(i);
                let ghost prepoints = col.points@;
                let mut k: usize = 0;
                while k < n
                    invariant
                        old(self).wf(),
                        pre == old(self).collections@,
                        self.collections@ == pre.remove(i as int),
                        self.url@ == old(self).url@,
                        0 <= i < pre.len(),
                        i as int == old(self).spec_collection_idx(collection_name@),
                        pre[i as int].name@ == collection_name@,
                        prepoints == pre[i as int].points@,
                        n <= all_embeddings.len(),
                        n <= all_payloads.len(),
                        k <= n,
                        embeddings@ == all_embeddings.skip(k as int),
                        payload@ == all_payloads.skip(k as int),
                        ids@.len() == k,
                        recs.len() == k,
                        forall|j: int|
                            0 <= j < k ==> recs[j] == (PointRecord {
                                id: ids@[j],
                                vectors: NamedVectors::Single(all_embeddings[j]),
                                payload: all_payloads[j],
                            }),
                        col.points@ == upsert_all(prepoints, recs),
                        ids_unique(col.points@),
                        forall|j: int|
                            0 <= j < col.points@.len() ==> matches_schema(
                                (#[trigger] col.points@[j]).vectors,
                                col.schema,
                            ) && col.points@[j].payload.wf(),
                        col.schema is Single,
                        col.schema->Single_dim == dim,
                        col.name == pre[i as int].name,
                        col.schema == pre[i as int].schema,
                        forall|j: int|
                            0 <= j < n ==> (#[trigger] all_embeddings[j]).components@.len() == dim
                                && all_embeddings[j].wf(),
                        forall|j: int| 0 <= j < n ==> (#[trigger] all_payloads[j]).wf(),
                    decreases n - k,
                {
                    let e = embeddings.remove(0);
                    let p = payload.remove(0);
                    proof {
                        assert(e == all_embeddings[k as int]);
                        assert(p == all_payloads[k as int]);
                        assert(embeddings@ =~= all_embeddings.skip(k as int + 1));
                        assert(payload@ =~= all_payloads.skip(k as int + 1));
                    }
                    let id = fresh_point_id();
                    let rec = PointRecord { id, vectors: NamedVectors::Single(e), payload: p };
                    proof {
                        lemma_upsert_preserves(col.points@, rec, col.schema);
                        lemma_upsert_all_snoc(prepoints, recs, rec);
                    }
                    insert_point(&mut col.points, rec);
                    ids.push(id);
                    proof {
                        recs = recs.push(rec);
                    }
                    k += 1;
                }
                self.collections.insert(i, col);
                proof {
                    assert(self.collections@ =~= pre.update(
                        i as int,
                        Collection {
                            name: pre[i as int].name,
                            schema: pre[i as int].schema,
                            points: self.collections@[i as int].points,
                        },
                    ));
                    let nn = vstd::math::min(all_embeddings.len() as int, all_payloads.len() as int);
                    assert(nn == n as int);
                    assert(recs =~= Seq::new(
                        nn as nat,
                        |j: int|
                            PointRecord {
                                id: ids@[j],
                                vectors: NamedVectors::Single(all_embeddings[j]),
                                payload: all_payloads[j],
                            },
                    ));
                }
                Ok(ids)
            },
        }
    }
}

} // verus!
