use vstd::prelude::*;
use crate::query::{has_entry_id, ranked, ScoredPoint};
use crate::schema::QuerySpace;
use crate::store::{has_id, ids_unique, idx_of_id, upsert_spec, PointRecord};

verus! {

/// A write is durable: a record just written is found by any query over the
/// resulting records whose limit covers them all, whatever the query vector.
pub proof fn lemma_write_durability(
    points_pre: Seq<PointRecord>,
    rec: PointRecord,
    rows: Seq<ScoredPoint>,
    q: Seq<i64>,
    space: QuerySpace,
    limit: int,
    with_payload: bool,
    with_vectors: bool,
)
    requires
        ranked(upsert_spec(points_pre, rec), rows, q, space, limit, with_payload, with_vectors),
        limit >= upsert_spec(points_pre, rec).len(),
    ensures
        has_entry_id(rows, rec.id),
{
    let s2 = upsert_spec(points_pre, rec);
    if has_id(points_pre, rec.id) {
        let j = idx_of_id(points_pre, rec.id);
        assert(0 <= j < points_pre.len() && points_pre[j].id == rec.id);
        assert(s2[j].id == rec.id);
    } else {
        assert(s2[points_pre.len() as int].id == rec.id);
    }
}

/// Writes that draw distinct identifiers leave distinct records: after two
/// consecutive writes with different identifiers, both records stand in the
/// store, each under its own identifier.
pub proof fn lemma_distinct_ids_distinct_records(
    s: Seq<PointRecord>,
    p1: PointRecord,
    p2: PointRecord,
)
    requires
        ids_unique(s),
        p1.id != p2.id,
    ensures
        ({
            let s2 = upsert_spec(upsert_spec(s, p1), p2);
            &&& has_id(s2, p1.id)
            &&& has_id(s2, p2.id)
            &&& s2[idx_of_id(s2, p1.id)] == p1
            &&& s2[idx_of_id(s2, p2.id)] == p2
        }),
{
    let s1 = upsert_spec(s, p1);
    crate::writer::lemma_upsert_keeps_wf_ids(s, p1);
    crate::writer::lemma_upsert_keeps_wf_ids(s1, p2);
    let s2 = upsert_spec(s1, p2);
    // p1 stands in s1 at a known position
    let j1 = if has_id(s, p1.id) {
        idx_of_id(s, p1.id)
    } else {
        s.len() as int
    };
    if has_id(s, p1.id) {
        assert(0 <= j1 < s.len() && s[j1].id == p1.id);
    }
    assert(s1[j1] == p1);
    // the second write touches a different identifier, so position j1 survives
    if has_id(s1, p2.id) {
        let j2 = idx_of_id(s1, p2.id);
        assert(0 <= j2 < s1.len() && s1[j2].id == p2.id);
        assert(j2 != j1);
        assert(s2[j1] == p1 && s2[j2] == p2);
    } else {
        assert(s2[j1] == p1 && s2[s1.len() as int] == p2);
    }
    assert(has_id(s2, p1.id));
    assert(has_id(s2, p2.id));
    let k1 = idx_of_id(s2, p1.id);
    let k2 = idx_of_id(s2, p2.id);
    assert(0 <= k1 < s2.len() && s2[k1].id == p1.id);
    assert(0 <= k2 < s2.len() && s2[k2].id == p2.id);
    assert(ids_unique(s2));
    assert(s2[k1] == p1);
    assert(s2[k2] == p2);
}

} // verus!
