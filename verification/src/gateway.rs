use vstd::prelude::*;
use crate::embedding::Embedding;
use crate::error::StoreError;

verus! {

/// One batch request to the Embedding Gateway: the texts (or base64-encoded
/// images) to embed, in the order their vectors are owed back.
#[derive(Debug, Clone)]
pub struct TextEmbeddingRequest {
    pub inputs: Vec<String>,
}

/// Configuration of the Embedding Gateway: the base URL of the remote
/// embedding-inference endpoint. The HTTP exchange itself lives outside the
/// library; the pairing of its answers with the inputs is checked here.
#[derive(Debug, Clone)]
pub struct TextEmbeddingInference {
    pub base_url: String,
}

impl TextEmbeddingInference {
    /// A gateway for the given endpoint, or for the local default.
    pub fn new(base_url: Option<&str>) -> (r: Self)
        ensures
            match base_url {
                Some(u) => r.base_url@ == u@,
                None => r.base_url@ == "http://localhost:8888"@,
            },
    {
        let url = match base_url {
            Some(u) => u.to_owned(),
            None => "http://localhost:8888".to_owned(),
        };
        TextEmbeddingInference { base_url: url }
    }
}

/// Pairs a batch of inputs with the vectors the gateway answered: the i-th
/// vector belongs to the i-th input. An answer of the wrong length breaks the
/// gateway's order-preserving wire contract and is surfaced as a provider
/// error, never silently truncated.
pub fn pair_embeddings(inputs: Vec<String>, vectors: Vec<Embedding>) -> (r: Result<
    Vec<(String, Embedding)>,
    StoreError,
>)
    ensures
        r is Ok <==> inputs@.len() == vectors@.len(),
        r is Ok ==> {
            &&& r->Ok_0@.len() == inputs@.len()
            &&& forall|i: int|
                0 <= i < inputs@.len() ==> (#[trigger] r->Ok_0@[i]).0 == inputs@[i]
                    && r->Ok_0@[i].1 == vectors@[i]
        },
        r is Err ==> r->Err_0 is Provider,
{
    if inputs.len() != vectors.len() {
        return Err(
            StoreError::Provider {
                status: 502,
                message: "embedding batch does not match the inputs".to_owned(),
            },
        );
    }
    let n = inputs.len();
    let mut inputs_q = inputs;
    let mut vectors_q = vectors;
    let mut out: Vec<(String, Embedding)> = Vec::new();
    let mut i: usize = 0;
    while i < n
        invariant
            n == inputs@.len() == vectors@.len(),
            inputs_q@ == inputs@.skip(i as int),
            vectors_q@ == vectors@.skip(i as int),
            i <= n,
            out@.len() == i,
            forall|j: int|
                0 <= j < i ==> (#[trigger] out@[j]).0 == inputs@[j] && out@[j].1 == vectors@[j],
        decreases n - i,
    {
        let t = inputs_q.remove(0);
        let v = vectors_q.remove(0);
        proof {
            assert(t == inputs@[i as int] && v == vectors@[i as int]);
            assert(inputs_q@ =~= inputs@.skip(i as int + 1));
            assert(vectors_q@ =~= vectors@.skip(i as int + 1));
        }
        out.push((t, v));
        i += 1;
    }
    Ok(out)
}

} // verus!
