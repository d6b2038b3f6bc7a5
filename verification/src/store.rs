use vstd::prelude::*;
use crate::embedding::Embedding;
use crate::error::StoreError;
use crate::payload::Payload;
use crate::schema::{Distance, QuerySpace, VectorSchema};

verus! {

/// The vectors a record owns: one unnamed vector, or the two named vectors
/// "image" and "text" of a multivector record.
#[derive(Debug, Clone)]
pub enum NamedVectors {
    Single(Embedding),
    Dual { image: Embedding, text: Embedding },
}

/// The vector of `v` that lives in the space `q`, when `v` has one.
pub open spec fn vector_for(v: NamedVectors, q: QuerySpace) -> Option<Embedding> {
    match v {
        NamedVectors::Single(e) => if q is Unnamed {
            Some(e)
        } else {
            None
        },
        NamedVectors::Dual { image, text } => match q {
            QuerySpace::Unnamed => None,
            QuerySpace::Image => Some(image),
            QuerySpace::Text => Some(text),
        },
    }
}

/// The record's vectors supply exactly the spaces the schema declares, with
/// the declared dimensionalities.
pub open spec fn matches_schema(v: NamedVectors, s: VectorSchema) -> bool {
    match v {
        NamedVectors::Single(e) => match s {
            VectorSchema::Single { dim, .. } => e.wf() && e.components@.len() == dim,
            VectorSchema::Named { .. } => false,
        },
        NamedVectors::Dual { image, text } => match s {
            VectorSchema::Single { .. } => false,
            VectorSchema::Named { image_dim, text_dim, .. } => image.wf() && text.wf()
                && image.components@.len() == image_dim && text.components@.len() == text_dim,
        },
    }
}

/// One stored record: a generated identifier, the vectors declared by the
/// collection's schema, and a payload.
#[derive(Debug, Clone)]
pub struct PointRecord {
    pub id: u128,
    pub vectors: NamedVectors,
    pub payload: Payload,
}

pub open spec fn ids_unique(s: Seq<PointRecord>) -> bool {
    forall|i: int, j: int| 0 <= i < j < s.len() ==> s[i].id != s[j].id
}

pub open spec fn has_id(s: Seq<PointRecord>, id: u128) -> bool {
    exists|i: int| 0 <= i < s.len() && s[i].id == id
}

pub open spec fn idx_of_id(s: Seq<PointRecord>, id: u128) -> int {
    choose|i: int| 0 <= i < s.len() && s[i].id == id
}

/// What one write leaves behind: the record replaces the one that carried the
/// same identifier, or is appended when the identifier is new.
pub open spec fn upsert_spec(s: Seq<PointRecord>, p: PointRecord) -> Seq<PointRecord> {
    if has_id(s, p.id) {
        s.update(idx_of_id(s, p.id), p)
    } else {
        s.push(p)
    }
}

/// A named container of records with a fixed schema.
#[derive(Debug, Clone)]
pub struct Collection {
    pub name: String,
    pub schema: VectorSchema,
    pub points: Vec<PointRecord>,
}

impl Collection {
    /// The schema is well formed, identifiers are pairwise distinct, and
    /// every record supplies exactly the declared vectors.
    pub open spec fn wf(self) -> bool {
        &&& self.schema.wf()
        &&& ids_unique(self.points@)
        &&& forall|i: int|
            0 <= i < self.points@.len() ==> matches_schema(
                (#[trigger] self.points@[i]).vectors,
                self.schema,
            ) && self.points@[i].payload.wf()
    }
}

/// The vector-store client: the state a conforming engine reaches after the
/// requests issued so far, which is what every operation below is specified
/// against. A remote deployment issues the same requests over the engine's
/// own wire protocol.
#[derive(Debug)]
pub struct QdrantClient {
    pub url: String,
    pub collections: Vec<Collection>,
}

impl QdrantClient {
    /// Collection names are pairwise distinct and each collection is well
    /// formed.
    pub open spec fn wf(self) -> bool {
        &&& forall|i: int, j: int|
            0 <= i < j < self.collections@.len() ==> self.collections@[i].name@
                != self.collections@[j].name@
        &&& forall|i: int| 0 <= i < self.collections@.len() ==> (#[trigger] self.collections@[i]).wf()
    }

    pub open spec fn spec_has_collection(self, name: Seq<char>) -> bool {
        exists|i: int| 0 <= i < self.collections@.len() && self.collections@[i].name@ == name
    }

    pub open spec fn spec_collection_idx(self, name: Seq<char>) -> int {
        choose|i: int| 0 <= i < self.collections@.len() && self.collections@[i].name@ == name
    }

    pub open spec fn spec_collection(self, name: Seq<char>) -> Collection {
        self.collections@[self.spec_collection_idx(name)]
    }

    pub fn new(url: &str) -> (r: Self)
        ensures
            r.url@ == url@,
            r.collections@.len() == 0,
            r.wf(),
    {
        QdrantClient { url: url.to_owned(), collections: Vec::new() }
    }

    /// The position of the collection of that name, when there is one.
    pub(crate) fn find_collection(&self, name: &str) -> (r: Option<usize>)
        ensures
            match r {
                Some(i) => i < self.collections@.len() && self.collections@[i as int].name@
                    == name@,
                None => !self.spec_has_collection(name@),
            },
    {
        let wanted: String = name.to_owned();
        let n = self.collections.len();
        for i in 0..n
            invariant
                n == self.collections@.len(),
                wanted@ == name@,
                forall|k: int| 0 <= k < i ==> self.collections@[k].name@ != name@,
        {
            if self.collections[i].name == wanted {
                return Some(i);
            }
        }
        None
    }

    /// The names of all collections, in creation order.
    pub fn get_collections(&self) -> (r: Result<Vec<String>, StoreError>)
        ensures
            r is Ok,
            r->Ok_0@.len() == self.collections@.len(),
            forall|i: int|
                0 <= i < self.collections@.len() ==> (#[trigger] r->Ok_0@[i])@
                    == self.collections@[i].name@,
    {
        let mut names: Vec<String> = Vec::new();
        let n = self.collections.len();
        for i in 0..n
            invariant
                n == self.collections@.len(),
                names@.len() == i,
                forall|k: int| 0 <= k < i ==> (#[trigger] names@[k])@ == self.collections@[k].name@,
        {
            names.push(self.collections[i].name.clone());
        }
        Ok(names)
    }

    /// Whether a collection of that name exists.
    pub fn check_collection(&self, collection_name: &str) -> (r: Result<bool, StoreError>)
        ensures
            r is Ok,
            r->Ok_0 == self.spec_has_collection(collection_name@),
    {
        match self.find_collection(collection_name) {
            Some(_) => Ok(true),
            None => Ok(false),
        }
    }

    /// Creates a collection with one unnamed vector space. The engine rejects
    /// a redefinition, so a collection of that name must not exist yet.
    pub fn create_collection(&mut self, collection_name: &str, dim: u64, distance: Distance) -> (r:
        Result<(), StoreError>)
        requires
            old(self).wf(),
        ensures
            final(self).wf(),
            final(self).url@ == old(self).url@,
            r is Ok <==> !old(self).spec_has_collection(collection_name@) && (VectorSchema::Single {
                dim,
                distance,
            }).wf(),
            r is Err ==> *final(self) == *old(self) && r->Err_0 is SchemaMismatch,
            r is Ok ==> {
                &&& final(self).collections@.len() == old(self).collections@.len() + 1
                &&& forall|i: int|
                    0 <= i < old(self).collections@.len() ==> final(self).collections@[i] == old(
                        self,
                    ).collections@[i]
                &&& final(self).collections@.last().name@ == collection_name@
                &&& final(self).collections@.last().schema == (VectorSchema::Single {
                    dim,
                    distance,
                })
                &&& final(self).collections@.last().points@.len() == 0
            },
    {
        let schema = VectorSchema::Single { dim, distance };
        self.create_with_schema(collection_name, schema)
    }

    /// Creates a multivector collection with the two named spaces "image" and
    /// "text", cosine distance, each with its own dimensionality.
    pub fn create_multivector_collection(
        &mut self,
        collection_name: &str,
        vector_size_img: u64,
        vector_size_txt: u64,
    ) -> (r: Result<(), StoreError>)
        requires
            old(self).wf(),
        ensures
            final(self).wf(),
            final(self).url@ == old(self).url@,
            r is Ok <==> !old(self).spec_has_collection(collection_name@) && (VectorSchema::Named {
                image_dim: vector_size_img,
                text_dim: vector_size_txt,
                distance: Distance::Cosine,
            }).wf(),
            r is Err ==> *final(self) == *old(self) && r->Err_0 is SchemaMismatch,
            r is Ok ==> {
                &&& final(self).collections@.len() == old(self).collections@.len() + 1
                &&& forall|i: int|
                    0 <= i < old(self).collections@.len() ==> final(self).collections@[i] == old(
                        self,
                    ).collections@[i]
                &&& final(self).collections@.last().name@ == collection_name@
                &&& final(self).collections@.last().schema == (VectorSchema::Named {
                    image_dim: vector_size_img,
                    text_dim: vector_size_txt,
                    distance: Distance::Cosine,
                })
                &&& final(self).collections@.last().points@.len() == 0
            },
    {
        let schema = VectorSchema::Named {
            image_dim: vector_size_img,
            text_dim: vector_size_txt,
            distance: Distance::Cosine,
        };
        self.create_with_schema(collection_name, schema)
    }

    fn create_with_schema(&mut self, collection_name: &str, schema: VectorSchema) -> (r: Result<
        (),
        StoreError,
    >)
        requires
            old(self).wf(),
        ensures
            final(self).wf(),
            final(self).url@ == old(self).url@,
            r is Ok <==> !old(self).spec_has_collection(collection_name@) && schema.wf(),
            r is Err ==> *final(self) == *old(self) && r->Err_0 is SchemaMismatch,
            r is Ok ==> {
                &&& final(self).collections@.len() == old(self).collections@.len() + 1
                &&& forall|i: int|
                    0 <= i < old(self).collections@.len() ==> final(self).collections@[i] == old(
                        self,
                    ).collections@[i]
                &&& final(self).collections@.last().name@ == collection_name@
                &&& final(self).collections@.last().schema == schema
                &&& final(self).collections@.last().points@.len() == 0
            },
    {
        if !schema.check_wf() {
            return Err(StoreError::SchemaMismatch("dimensionality out of range".to_owned()));
        }
        if self.find_collection(collection_name).is_some() {
            return Err(StoreError::SchemaMismatch("collection already exists".to_owned()));
        }
        let col = Collection { name: collection_name.to_owned(), schema, points: Vec::new() };
        self.collections.push(col);
        Ok(())
    }

    /// Removes the collection of that name; absent collections are reported,
    /// not ignored.
    pub fn delete_collection(&mut self, collection_name: &str) -> (r: Result<(), StoreError>)
        requires
            old(self).wf(),
        ensures
            final(self).wf(),
            final(self).url@ == old(self).url@,
            r is Ok <==> old(self).spec_has_collection(collection_name@),
            r is Err ==> *final(self) == *old(self) && r->Err_0 is NotFound,
            r is Ok ==> final(self).collections@ == old(self).collections@.remove(
                old(self).spec_collection_idx(collection_name@),
            ),
    {
        match self.find_collection(collection_name) {
            None => Err(StoreError::NotFound("no such collection".to_owned())),
            Some(i) => {
                proof {
                    let idx = self.spec_collection_idx(collection_name@);
                    assert(0 <= idx < self.collections@.len() && self.collections@[idx].name@
                        == collection_name@);
                    assert(idx == i as int);
                }
                self.collections.remove(i);
                Ok(())
            },
        }
    }

    /// Removes every collection.
    pub fn delete_all_collections(&mut self) -> (r: Result<(), StoreError>)
        requires
            old(self).wf(),
        ensures
            final(self).wf(),
            final(self).url@ == old(self).url@,
            r is Ok,
            final(self).collections@.len() == 0,
    {
        self.collections.clear();
        Ok(())
    }
}

} // verus!
