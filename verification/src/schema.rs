use vstd::prelude::*;
use crate::MAX_DIM;

verus! {

/// Distance metric of a collection. This design fixes cosine similarity for
/// every vector space.
#[derive(Debug, Clone, Copy, PartialEq, Eq, Structural)]
pub enum Distance {
    Cosine,
}

/// The fixed shape of a collection: either one unnamed vector space, or the
/// two named spaces "image" and "text", each with its own dimensionality.
#[derive(Debug, Clone, Copy, PartialEq, Eq, Structural)]
pub enum VectorSchema {
    Single { dim: u64, distance: Distance },
    Named { image_dim: u64, text_dim: u64, distance: Distance },
}

impl VectorSchema {
    /// Every declared dimensionality is positive and within what the
    /// similarity arithmetic carries.
    pub open spec fn wf(self) -> bool {
        match self {
            VectorSchema::Single { dim, .. } => 1 <= dim <= MAX_DIM,
            VectorSchema::Named { image_dim, text_dim, .. } => 1 <= image_dim <= MAX_DIM && 1
                <= text_dim <= MAX_DIM,
        }
    }

    pub fn check_wf(&self) -> (r: bool)
        ensures
            r == self.wf(),
    {
        match self {
            VectorSchema::Single { dim, .. } => 1 <= *dim && *dim <= MAX_DIM,
            VectorSchema::Named { image_dim, text_dim, .. } => 1 <= *image_dim && *image_dim
                <= MAX_DIM && 1 <= *text_dim && *text_dim <= MAX_DIM,
        }
    }
}

/// The vector space a query is scoped to: the single unnamed space of a
/// simple collection, or one of the two named spaces of a multivector
/// collection.
#[derive(Debug, Clone, Copy, PartialEq, Eq, Structural)]
pub enum QuerySpace {
    Unnamed,
    Image,
    Text,
}

} // verus!
