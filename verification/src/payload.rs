use vstd::prelude::*;
use crate::error::StoreError;

verus! {

/// One key/value pair of a record's payload.
#[derive(Debug, Clone)]
pub struct PayloadEntry {
    pub key: String,
    pub value: String,
}

/// Structured metadata attached to a record and returned alongside query
/// results: a mapping from string keys to string values, kept as a list of
/// entries with pairwise distinct keys.
#[derive(Debug, Clone)]
pub struct Payload {
    pub entries: Vec<PayloadEntry>,
}

impl Payload {
    /// Keys are pairwise distinct.
    pub open spec fn wf(self) -> bool {
        forall|i: int, j: int|
            0 <= i < j < self.entries@.len() ==> self.entries@[i].key@ != self.entries@[j].key@
    }

    pub open spec fn spec_contains_key(self, k: Seq<char>) -> bool {
        exists|i: int| 0 <= i < self.entries@.len() && self.entries@[i].key@ == k
    }

    pub fn empty() -> (r: Payload)
        ensures
            r.entries@.len() == 0,
            r.wf(),
    {
        Payload { entries: Vec::new() }
    }

    /// A payload holding exactly one entry.
    pub fn single(key: String, value: String) -> (r: Payload)
        ensures
            r.entries@.len() == 1,
            r.entries@[0].key@ == key@,
            r.entries@[0].value@ == value@,
            r.wf(),
    {
        let mut entries: Vec<PayloadEntry> = Vec::new();
        entries.push(PayloadEntry { key, value });
        Payload { entries }
    }

    /// Adds an entry under a key not yet present.
    pub fn push(&mut self, key: String, value: String)
        requires
            old(self).wf(),
            !old(self).spec_contains_key(key@),
        ensures
            final(self).entries@.len() == old(self).entries@.len() + 1,
            forall|i: int|
                0 <= i < old(self).entries@.len() ==> final(self).entries@[i] == old(
                    self,
                ).entries@[i],
            final(self).entries@[old(self).entries@.len() as int].key@ == key@,
            final(self).entries@[old(self).entries@.len() as int].value@ == value@,
            final(self).wf(),
    {
        self.entries.push(PayloadEntry { key, value });
    }

    /// Looks a key up; returns its value when present.
    pub fn get(&self, key: &str) -> (r: Option<&String>)
        requires
            self.wf(),
        ensures
            match r {
                Some(v) => self.spec_contains_key(key@) && exists|i: int|
                    0 <= i < self.entries@.len() && self.entries@[i].key@ == key@
                        && self.entries@[i].value@ == v@,
                None => !self.spec_contains_key(key@),
            },
    {
        let wanted: String = key.to_owned();
        let n = self.entries.len();
        for i in 0..n
            invariant
                n == self.entries@.len(),
                wanted@ == key@,
                forall|k: int| 0 <= k < i ==> self.entries@[k].key@ != key@,
        {
            if self.entries[i].key == wanted {
                return Some(&self.entries[i].value);
            }
        }
        None
    }
}

/// Wraps each text in a payload of one entry keyed by `field_name`.
pub fn texts_to_payload(texts: Vec<String>, field_name: &str) -> (r: Result<
    Vec<Payload>,
    StoreError,
>)
    ensures
        r is Ok,
        r->Ok_0@.len() == texts@.len(),
        forall|i: int|
            0 <= i < texts@.len() ==> {
                &&& (#[trigger] r->Ok_0@[i]).entries@.len() == 1
                &&& r->Ok_0@[i].entries@[0].key@ == field_name@
                &&& r->Ok_0@[i].entries@[0].value@ == texts@[i]@
                &&& r->Ok_0@[i].wf()
            },
{
    let mut out: Vec<Payload> = Vec::new();
    let n = texts.len();
    let mut texts = texts;
    let ghost all_texts = texts@;
    let mut idx: usize = 0;
    while idx < n
        invariant
            n == all_texts.len(),
            texts@ == all_texts.skip(idx as int),
            idx <= n,
            out@.len() == idx,
            forall|i: int|
                0 <= i < idx ==> {
                    &&& (#[trigger] out@[i]).entries@.len() == 1
                    &&& out@[i].entries@[0].key@ == field_name@
                    &&& out@[i].entries@[0].value@ == all_texts[i]@
                    &&& out@[i].wf()
                },
        decreases n - idx,
    {
        let text = texts.remove(0);
        assert(text == all_texts[idx as int]);
        out.push(Payload::single(field_name.to_owned(), text));
        assert(texts@ =~= all_texts.skip(idx as int + 1));
        idx += 1;
    }
    Ok(out)
}

} // verus!
