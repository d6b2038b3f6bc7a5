use vstd::prelude::*;
use crate::embedding::Embedding;
use crate::error::StoreError;
use crate::payload::Payload;
use crate::store::{matches_schema, NamedVectors, PointRecord, QdrantClient};
use crate::writer::upsert_all;

verus! {

/// Relies on chrono::Utc::now and chrono::DateTime::to_rfc3339: the current
/// wall clock, rendered as an RFC 3339 timestamp. The value depends on the
/// clock, so nothing is promised of it.
#[verifier::external_body]
fn now_rfc3339() -> String {
    chrono::Utc::now().to_rfc3339()
}

/// A payload of one named text field and a timestamp.
fn stamped_payload(field_name: &str, value: String) -> (r: Payload)
    requires
        field_name@ != "timestamp"@,
    ensures
        r.wf(),
        r.entries@.len() == 2,
        r.entries@[0].key@ == field_name@,
        r.entries@[0].value@ == value@,
        r.entries@[1].key@ == "timestamp"@,
{
    let mut p = Payload::single(field_name.to_owned(), value);
    p.push("timestamp".to_owned(), now_rfc3339());
    p
}

/// The records of one single-vector ingestion round: the i-th record carries
/// the i-th embedding and a payload whose first entry holds the i-th source
/// value under `field`.
pub open spec fn text_batch_shape(
    recs: Seq<PointRecord>,
    embeddings: Seq<Embedding>,
    values: Seq<String>,
    field: Seq<char>,
) -> bool {
    &&& forall|i: int|
        0 <= i < recs.len() ==> (#[trigger] recs[i]).vectors == NamedVectors::Single(embeddings[i])
    &&& forall|i: int|
        0 <= i < recs.len() ==> {
            let p = (#[trigger] recs[i]).payload;
            &&& p.wf()
            &&& p.entries@.len() == 2
            &&& p.entries@[0].key@ == field
            &&& p.entries@[0].value@ == values[i]@
            &&& p.entries@[1].key@ == "timestamp"@
        }
}

/// The records of one multivector ingestion round: the i-th record carries
/// the i-th image and text embeddings under their named spaces, and a payload
/// holding the i-th image path and text.
pub open spec fn multivector_batch_shape(
    recs: Seq<PointRecord>,
    image_embeddings: Seq<Embedding>,
    text_embeddings: Seq<Embedding>,
    image_paths: Seq<String>,
    texts: Seq<String>,
) -> bool {
    &&& forall|i: int|
        0 <= i < recs.len() ==> (#[trigger] recs[i]).vectors == (NamedVectors::Dual {
            image: image_embeddings[i],
            text: text_embeddings[i],
        })
    &&& forall|i: int|
        0 <= i < recs.len() ==> {
            let p = (#[trigger] recs[i]).payload;
            &&& p.wf()
            &&& p.entries@.len() == 3
            &&& p.entries@[0].key@ == "image_path"@
            &&& p.entries@[0].value@ == image_paths[i]@
            &&& p.entries@[1].key@ == "text"@
            &&& p.entries@[1].value@ == texts[i]@
            &&& p.entries@[2].key@ == "timestamp"@
        }
}

/// Ingests a batch of texts whose embeddings were computed by the Embedding
/// Gateway in one order-preserving call: the i-th record stores the i-th
/// embedding with the i-th text in its payload.
pub fn ingest_texts(
    client: &mut QdrantClient,
    collection_name: &str,
    texts: Vec<String>,
    embeddings: Vec<Embedding>,
) -> (r: Result<(), StoreError>)
    requires
        old(client).wf(),
        forall|i: int| 0 <= i < embeddings@.len() ==> (#[trigger] embeddings@[i]).wf(),
    ensures
        final(client).wf(),
        final(client).url@ == old(client).url@,
        ({
            let n = vstd::math::min(embeddings@.len() as int, texts@.len() as int);
            &&& (r is Ok <==> old(client).spec_has_collection(collection_name@) && (forall|i: int|
                0 <= i < n ==> matches_schema(
                    NamedVectors::Single(#[trigger] embeddings@[i]),
                    old(client).spec_collection(collection_name@).schema,
                )))
            &&& (r is Err ==> *final(client) == *old(client) && (if !old(
                client,
            ).spec_has_collection(collection_name@) {
                r->Err_0 is NotFound
            } else {
                r->Err_0 is SchemaMismatch
            }))
            &&& (r is Ok ==> {
                let idx = old(client).spec_collection_idx(collection_name@);
                exists|recs: Seq<PointRecord>|
                    {
                        &&& recs.len() == n
                        &&& #[trigger] text_batch_shape(recs, embeddings@, texts@, "text"@)
                        &&& final(client).collections@[idx].points@ == upsert_all(
                            old(client).collections@[idx].points@,
                            recs,
                        )
                    }
            })
            &&& (r is Ok ==> {
                let idx = old(client).spec_collection_idx(collection_name@);
                &&& final(client).collections@.len() == old(client).collections@.len()
                &&& forall|j: int|
                    0 <= j < old(client).collections@.len() && j != idx
                        ==> final(client).collections@[j] == old(client).collections@[j]
                &&& final(client).collections@[idx].name@ == old(client).collections@[idx].name@
                &&& final(client).collections@[idx].schema == old(client).collections@[idx].schema
            })
        }),
{
    let n = texts.len();
    let mut payloads: Vec<Payload> = Vec::new();
    let mut pending = texts;
    let mut i: usize = 0;
    proof {
        reveal_strlit("text");
        reveal_strlit("timestamp");
        assert(("text"@).len() == 4 && ("timestamp"@).len() == 9);
    }
    while i < n
        invariant
            n == texts@.len(),
            pending@ == texts@.skip(i as int),
            i <= n,
            "text"@ != "timestamp"@,
            payloads@.len() == i,
            forall|j: int|
                0 <= j < i ==> {
                    let p = #[trigger] payloads@[j];
                    &&& p.wf()
                    &&& p.entries@.len() == 2
                    &&& p.entries@[0].key@ == "text"@
                    &&& p.entries@[0].value@ == texts@[j]@
                    &&& p.entries@[1].key@ == "timestamp"@
                },
        decreases n - i,
    {
        let t = pending.remove(0);
        proof {
            assert(t == texts@[i as int]);
            assert(pending@ =~= texts@.skip(i as int + 1));
        }
        payloads.push(stamped_payload("text", t));
        i += 1;
    }
    match client.upsert_points(collection_name, embeddings, payloads) {
        Ok(ids) => {
            proof {
                let nn = vstd::math::min(embeddings@.len() as int, texts@.len() as int);
                let recs = Seq::new(
                    nn as nat,
                    |j: int|
                        PointRecord {
                            id: ids@[j],
                            vectors: NamedVectors::Single(embeddings@[j]),
                            payload: payloads@[j],
                        },
                );
                assert(text_batch_shape(recs, embeddings@, texts@, "text"@));
            }
            Ok(())
        },
        Err(e) => Err(e),
    }
}

/// Ingests a batch of positionally paired images and texts: the i-th record
/// stores the i-th image embedding and the i-th text embedding under the
/// named spaces "image" and "text", with the i-th path and text in its
/// payload. Mismatched batch lengths are a validation error. Writes are
/// issued one record at a time and stop at the first failure; records already
/// written stay written.
pub fn ingest_multivector(
    client: &mut QdrantClient,
    collection_name: &str,
    image_paths: Vec<String>,
    texts: Vec<String>,
    image_embeddings: Vec<Embedding>,
    text_embeddings: Vec<Embedding>,
) -> (r: Result<(), StoreError>)
    requires
        old(client).wf(),
        forall|i: int| 0 <= i < image_embeddings@.len() ==> (#[trigger] image_embeddings@[i]).wf(),
        forall|i: int| 0 <= i < text_embeddings@.len() ==> (#[trigger] text_embeddings@[i]).wf(),
    ensures
        final(client).wf(),
        final(client).url@ == old(client).url@,
        ({
            let n = image_paths@.len() as int;
            let lens_ok = texts@.len() == n && image_embeddings@.len() == n
                && text_embeddings@.len() == n;
            &&& (r is Ok <==> lens_ok && old(client).spec_has_collection(collection_name@) && (
            forall|i: int|
                0 <= i < n ==> matches_schema(
                    NamedVectors::Dual {
                        image: #[trigger] image_embeddings@[i],
                        text: text_embeddings@[i],
                    },
                    old(client).spec_collection(collection_name@).schema,
                )))
            &&& (!lens_ok ==> r is Err && r->Err_0 is SchemaMismatch && *final(client) == *old(
                client,
            ))
            &&& ((lens_ok && !old(client).spec_has_collection(collection_name@)) ==> r is Err
                && r->Err_0 is NotFound && *final(client) == *old(client))
            &&& (r is Ok ==> {
                let idx = old(client).spec_collection_idx(collection_name@);
                exists|recs: Seq<PointRecord>|
                    {
                        &&& recs.len() == n
                        &&& #[trigger] multivector_batch_shape(
                            recs,
                            image_embeddings@,
                            text_embeddings@,
                            image_paths@,
                            texts@,
                        )
                        &&& final(client).collections@[idx].points@ == upsert_all(
                            old(client).collections@[idx].points@,
                            recs,
                        )
                    }
            })
            &&& (r is Ok ==> {
                let idx = old(client).spec_collection_idx(collection_name@);
                &&& final(client).collections@.len() == old(client).collections@.len()
                &&& forall|j: int|
                    0 <= j < old(client).collections@.len() && j != idx
                        ==> final(client).collections@[j] == old(client).collections@[j]
                &&& final(client).collections@[idx].name@ == old(client).collections@[idx].name@
                &&& final(client).collections@[idx].schema == old(client).collections@[idx].schema
            })
            // fail-fast without rollback: a mid-batch failure leaves exactly the
            // records written before it
            &&& ((r is Err && lens_ok && old(client).spec_has_collection(collection_name@)) ==> {
                let idx = old(client).spec_collection_idx(collection_name@);
                exists|recs: Seq<PointRecord>|
                    {
                        &&& recs.len() < n
                        &&& #[trigger] multivector_batch_shape(
                            recs,
                            image_embeddings@,
                            text_embeddings@,
                            image_paths@,
                            texts@,
                        )
                        &&& final(client).collections@[idx].points@ == upsert_all(
                            old(client).collections@[idx].points@,
                            recs,
                        )
                    }
            })
        }),
{
    let n = image_paths.len();
    if texts.len() != n || image_embeddings.len() != n || text_embeddings.len() != n {
        return Err(StoreError::SchemaMismatch("batch lengths do not match".to_owned()));
    }
    if client.find_collection(collection_name).is_none() {
        return Err(StoreError::NotFound("no such collection".to_owned()));
    }
    let mut paths_q = image_paths;
    let mut texts_q = texts;
    let mut img_q = image_embeddings;
    let mut txt_q = text_embeddings;
    let ghost pre = *client;
    let ghost idx = old(client).spec_collection_idx(collection_name@);
    let ghost mut recs: Seq<PointRecord> = Seq::empty();
    proof {
        reveal_strlit("image_path");
        reveal_strlit("text");
        reveal_strlit("timestamp");
        assert(("image_path"@).len() == 10 && ("text"@).len() == 4 && ("timestamp"@).len() == 9);
    }
    let mut i: usize = 0;
    while i < n
        invariant
            client.wf(),
            n == image_paths@.len() == texts@.len() == image_embeddings@.len()
                == text_embeddings@.len(),
            i <= n,
            paths_q@ == image_paths@.skip(i as int),
            texts_q@ == texts@.skip(i as int),
            img_q@ == image_embeddings@.skip(i as int),
            txt_q@ == text_embeddings@.skip(i as int),
            forall|j: int|
                0 <= j < image_embeddings@.len() ==> (#[trigger] image_embeddings@[j]).wf(),
            forall|j: int| 0 <= j < text_embeddings@.len() ==> (#[trigger] text_embeddings@[j]).wf(),
            "image_path"@ != "text"@ && "image_path"@ != "timestamp"@ && "text"@ != "timestamp"@,
            pre == *old(client),
            pre.wf(),
            pre.spec_has_collection(collection_name@),
            idx == pre.spec_collection_idx(collection_name@),
            client.url@ == pre.url@,
            client.collections@.len() == pre.collections@.len(),
            forall|j: int|
                0 <= j < pre.collections@.len() && j != idx ==> client.collections@[j]
                    == pre.collections@[j],
            client.collections@[idx].name@ == pre.collections@[idx].name@,
            client.collections@[idx].schema == pre.collections@[idx].schema,
            client.spec_has_collection(collection_name@),
            client.spec_collection_idx(collection_name@) == idx,
            recs.len() == i,
            multivector_batch_shape(recs, image_embeddings@, text_embeddings@, image_paths@, texts@),
            client.collections@[idx].points@ == upsert_all(pre.collections@[idx].points@, recs),
            forall|j: int|
                0 <= j < i ==> matches_schema(
                    NamedVectors::Dual {
                        image: #[trigger] image_embeddings@[j],
                        text: text_embeddings@[j],
                    },
                    pre.spec_collection(collection_name@).schema,
                ),
        decreases n - i,
    {
        let path = paths_q.remove(0);
        let text = texts_q.remove(0);
        let img_e = img_q.remove(0);
        let txt_e = txt_q.remove(0);
        proof {
            assert(path == image_paths@[i as int] && text == texts@[i as int]);
            assert(img_e == image_embeddings@[i as int] && txt_e == text_embeddings@[i as int]);
            assert(paths_q@ =~= image_paths@.skip(i as int + 1));
            assert(texts_q@ =~= texts@.skip(i as int + 1));
            assert(img_q@ =~= image_embeddings@.skip(i as int + 1));
            assert(txt_q@ =~= text_embeddings@.skip(i as int + 1));
        }
        let mut p = Payload::single("image_path".to_owned(), path);
        p.push("text".to_owned(), text);
        p.push("timestamp".to_owned(), now_rfc3339());
        let ghost img_ghost = img_e;
        let ghost txt_ghost = txt_e;
        let ghost p_ghost = p;
        match client.upsert_points_multivector(collection_name, img_e, txt_e, p) {
            Ok(id) => {
                proof {
                    let rec = PointRecord {
                        id,
                        vectors: NamedVectors::Dual { image: img_ghost, text: txt_ghost },
                        payload: p_ghost,
                    };
                    crate::writer::lemma_upsert_all_snoc(pre.collections@[idx].points@, recs, rec);
                    recs = recs.push(rec);
                }
            },
            Err(e) => {
                proof {
                    assert(!matches_schema(
                        NamedVectors::Dual {
                            image: image_embeddings@[i as int],
                            text: text_embeddings@[i as int],
                        },
                        old(client).spec_collection(collection_name@).schema,
                    ));
                    assert(!(forall|ii: int|
                        0 <= ii < n ==> matches_schema(
                            NamedVectors::Dual {
                                image: #[trigger] image_embeddings@[ii],
                                text: text_embeddings@[ii],
                            },
                            old(client).spec_collection(collection_name@).schema,
                        )));
                }
                return Err(e);
            },
        }
        i += 1;
    }
    Ok(())
}

/// Ingests a batch of images by their already computed embeddings: the i-th
/// record stores the i-th embedding with the i-th image path in its payload.
pub fn ingest_images(
    client: &mut QdrantClient,
    collection_name: &str,
    image_paths: Vec<String>,
    embeddings: Vec<Embedding>,
) -> (r: Result<(), StoreError>)
    requires
        old(client).wf(),
        forall|i: int| 0 <= i < embeddings@.len() ==> (#[trigger] embeddings@[i]).wf(),
    ensures
        final(client).wf(),
        final(client).url@ == old(client).url@,
        ({
            let n = vstd::math::min(embeddings@.len() as int, image_paths@.len() as int);
            &&& (r is Ok <==> old(client).spec_has_collection(collection_name@) && (forall|i: int|
                0 <= i < n ==> matches_schema(
                    NamedVectors::Single(#[trigger] embeddings@[i]),
                    old(client).spec_collection(collection_name@).schema,
                )))
            &&& (r is Err ==> *final(client) == *old(client) && (if !old(
                client,
            ).spec_has_collection(collection_name@) {
                r->Err_0 is NotFound
            } else {
                r->Err_0 is SchemaMismatch
            }))
            &&& (r is Ok ==> {
                let idx = old(client).spec_collection_idx(collection_name@);
                exists|recs: Seq<PointRecord>|
                    {
                        &&& recs.len() == n
                        &&& #[trigger] text_batch_shape(recs, embeddings@, image_paths@, "image_path"@)
                        &&& final(client).collections@[idx].points@ == upsert_all(
                            old(client).collections@[idx].points@,
                            recs,
                        )
                    }
            })
        }),
{
    let n = image_paths.len();
    let mut payloads: Vec<Payload> = Vec::new();
    let mut pending = image_paths;
    let mut i: usize = 0;
    proof {
        reveal_strlit("image_path");
        reveal_strlit("timestamp");
        assert(("image_path"@).len() == 10 && ("timestamp"@).len() == 9);
    }
    while i < n
        invariant
            n == image_paths@.len(),
            pending@ == image_paths@.skip(i as int),
            i <= n,
            "image_path"@ != "timestamp"@,
            payloads@.len() == i,
            forall|j: int|
                0 <= j < i ==> {
                    let p = #[trigger] payloads@[j];
                    &&& p.wf()
                    &&& p.entries@.len() == 2
                    &&& p.entries@[0].key@ == "image_path"@
                    &&& p.entries@[0].value@ == image_paths@[j]@
                    &&& p.entries@[1].key@ == "timestamp"@
                },
        decreases n - i,
    {
        let t = pending.remove(0);
        proof {
            assert(t == image_paths@[i as int]);
            assert(pending@ =~= image_paths@.skip(i as int + 1));
        }
        payloads.push(stamped_payload("image_path", t));
        i += 1;
    }
    match client.upsert_points(collection_name, embeddings, payloads) {
        Ok(ids) => {
            proof {
                let nn = vstd::math::min(embeddings@.len() as int, image_paths@.len() as int);
                let recs = Seq::new(
                    nn as nat,
                    |j: int|
                        PointRecord {
                            id: ids@[j],
                            vectors: NamedVectors::Single(embeddings@[j]),
                            payload: payloads@[j],
                        },
                );
                assert(text_batch_shape(recs, embeddings@, image_paths@, "image_path"@));
            }
            Ok(())
        },
        Err(e) => Err(e),
    }
}

} // verus!
