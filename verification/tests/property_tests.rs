use multivec_store::embedding::Embedding;
use multivec_store::error::StoreError;
use multivec_store::gateway::{pair_embeddings, TextEmbeddingInference};
use multivec_store::ingest::ingest_texts;
use multivec_store::payload::Payload;
use multivec_store::schema::Distance;
use multivec_store::store::QdrantClient;

fn emb(v: Vec<i64>) -> Embedding {
    Embedding::new(v).unwrap()
}

fn scenario_payload() -> Payload {
    let mut p = Payload::single("text".to_string(), "Hello World".to_string());
    p.push("image_path".to_string(), "path/to/image.jpg".to_string());
    p
}

// Create a two-space collection, write one record, query it back with the
// same two vectors: each side answers exactly that record with similarity
// one and the payload that was written.
#[test]
fn scenario_single_record_round_trip() {
    let mut client = QdrantClient::new("http://localhost:6334");
    client.create_multivector_collection("c1", 5, 5).unwrap();
    let id = client
        .upsert_points_multivector(
            "c1",
            emb(vec![1, 2, 3, 4, 5]),
            emb(vec![-1, -2, -3, -4, -5]),
            scenario_payload(),
        )
        .unwrap();
    let (image_rows, text_rows) = client
        .query_points_multivector(
            "c1",
            &emb(vec![1, 2, 3, 4, 5]),
            &emb(vec![-1, -2, -3, -4, -5]),
            10,
        )
        .unwrap();
    assert_eq!(image_rows.len(), 1);
    assert_eq!(text_rows.len(), 1);
    assert_eq!(image_rows[0].id, id);
    assert_eq!(text_rows[0].id, id);
    assert!(image_rows[0].score.is_one());
    assert!(text_rows[0].score.is_one());
    let image_payload = image_rows[0].payload.unwrap();
    assert_eq!(image_payload.get("text").unwrap().as_str(), "Hello World");
    assert_eq!(image_payload.get("image_path").unwrap().as_str(), "path/to/image.jpg");
    let text_payload = text_rows[0].payload.unwrap();
    assert_eq!(text_payload.get("text").unwrap().as_str(), "Hello World");
}

// Batch-ingest seven texts; querying with the first text's embedding ranks
// that text first.
#[test]
fn scenario_batch_ingest_top_result() {
    let mut client = QdrantClient::new("http://localhost:6334");
    client.create_collection("texts", 3, Distance::Cosine).unwrap();
    let texts: Vec<String> = vec!["t0", "t1", "t2", "t3", "t4", "t5", "t6"]
        .into_iter()
        .map(|s| s.to_string())
        .collect();
    let embeddings: Vec<Embedding> = (0..7).map(|i| emb(vec![10, i, 0])).collect();
    ingest_texts(&mut client, "texts", texts, embeddings).unwrap();
    let rows = client.query_points("texts", &emb(vec![10, 0, 0]), 5).unwrap();
    assert_eq!(rows.len(), 5);
    assert!(rows[0].score.is_one());
    assert_eq!(rows[0].payload.unwrap().get("text").unwrap().as_str(), "t0");
}

// A zero limit on an existing, populated collection answers two empty row
// sets, not an error.
#[test]
fn scenario_zero_limit() {
    let mut client = QdrantClient::new("http://localhost:6334");
    client.create_multivector_collection("c1", 5, 5).unwrap();
    client
        .upsert_points_multivector(
            "c1",
            emb(vec![1, 2, 3, 4, 5]),
            emb(vec![-1, -2, -3, -4, -5]),
            scenario_payload(),
        )
        .unwrap();
    let (image_rows, text_rows) = client
        .query_points_multivector(
            "c1",
            &emb(vec![1, 2, 3, 4, 5]),
            &emb(vec![-1, -2, -3, -4, -5]),
            0,
        )
        .unwrap();
    assert!(image_rows.is_empty());
    assert!(text_rows.is_empty());
}

// A write whose vector lengths do not match the declared schema is rejected
// with a schema mismatch; a matching write is accepted.
#[test]
fn dimensionality_invariant() {
    let mut client = QdrantClient::new("http://localhost:6334");
    client.create_multivector_collection("c1", 5, 3).unwrap();
    let bad = client.upsert_points_multivector(
        "c1",
        emb(vec![1, 2, 3, 4]),
        emb(vec![1, 2, 3]),
        Payload::empty(),
    );
    assert!(matches!(bad, Err(StoreError::SchemaMismatch(_))));
    let bad_text = client.upsert_points_multivector(
        "c1",
        emb(vec![1, 2, 3, 4, 5]),
        emb(vec![1, 2]),
        Payload::empty(),
    );
    assert!(matches!(bad_text, Err(StoreError::SchemaMismatch(_))));
    let good = client.upsert_points_multivector(
        "c1",
        emb(vec![1, 2, 3, 4, 5]),
        emb(vec![1, 2, 3]),
        Payload::empty(),
    );
    assert!(good.is_ok());
}

// Immediately after a successful write, a query over the same collection
// retrieves the new record.
#[test]
fn write_durability() {
    let mut client = QdrantClient::new("http://localhost:6334");
    client.create_multivector_collection("c1", 2, 2).unwrap();
    for k in 0..4i64 {
        let id = client
            .upsert_points_multivector(
                "c1",
                emb(vec![k + 1, 1]),
                emb(vec![1, k + 1]),
                Payload::empty(),
            )
            .unwrap();
        let (image_rows, _) = client
            .query_points_multivector("c1", &emb(vec![1, 0]), &emb(vec![0, 1]), 100)
            .unwrap();
        assert!(image_rows.iter().any(|row| row.id == id));
        assert_eq!(image_rows.len(), (k + 1) as usize);
    }
}

// Repeated writes of identical vectors and payload leave distinct records
// under distinct identifiers.
#[test]
fn identifier_uniqueness() {
    let mut client = QdrantClient::new("http://localhost:6334");
    client.create_multivector_collection("c1", 2, 2).unwrap();
    let mut ids = Vec::new();
    for _ in 0..3 {
        let id = client
            .upsert_points_multivector(
                "c1",
                emb(vec![1, 2]),
                emb(vec![3, 4]),
                scenario_payload(),
            )
            .unwrap();
        ids.push(id);
    }
    assert_ne!(ids[0], ids[1]);
    assert_ne!(ids[0], ids[2]);
    assert_ne!(ids[1], ids[2]);
    let (image_rows, _) = client
        .query_points_multivector("c1", &emb(vec![1, 2]), &emb(vec![3, 4]), 10)
        .unwrap();
    assert_eq!(image_rows.len(), 3);
}

// If one vector space's sub-query would fail, the whole dual query fails:
// the other half is never returned alone.
#[test]
fn dual_query_independence() {
    let mut client = QdrantClient::new("http://localhost:6334");
    client.create_multivector_collection("c1", 5, 3).unwrap();
    client
        .upsert_points_multivector(
            "c1",
            emb(vec![1, 2, 3, 4, 5]),
            emb(vec![1, 2, 3]),
            Payload::empty(),
        )
        .unwrap();
    // image side has the wrong dimensionality, text side would succeed
    let r = client.query_points_multivector("c1", &emb(vec![1, 2]), &emb(vec![1, 2, 3]), 10);
    assert!(matches!(r, Err(StoreError::SchemaMismatch(_))));
}

// Query results come back ordered by descending similarity.
#[test]
fn query_results_sorted() {
    let mut client = QdrantClient::new("http://localhost:6334");
    client.create_collection("c", 2, Distance::Cosine).unwrap();
    let ids = client
        .upsert_points(
            "c",
            vec![emb(vec![-10, 0]), emb(vec![10, 0]), emb(vec![7, 7])],
            vec![Payload::empty(), Payload::empty(), Payload::empty()],
        )
        .unwrap();
    let rows = client.query_points("c", &emb(vec![10, 0]), 10).unwrap();
    assert_eq!(rows.len(), 3);
    assert_eq!(rows[0].id, ids[1]);
    assert_eq!(rows[1].id, ids[2]);
    assert_eq!(rows[2].id, ids[0]);
    assert!(rows[0].score.is_one());
    assert!(!rows[1].score.is_one());
}

// Queries and deletions against an absent collection are reported as not
// found.
#[test]
fn absent_collection_not_found() {
    let mut client = QdrantClient::new("http://localhost:6334");
    let q = client.query_points("nowhere", &emb(vec![1]), 10);
    assert!(matches!(q, Err(StoreError::NotFound(_))));
    let d = client.delete_collection("nowhere");
    assert!(matches!(d, Err(StoreError::NotFound(_))));
    let w = client.upsert_points_multivector(
        "nowhere",
        emb(vec![1]),
        emb(vec![1]),
        Payload::empty(),
    );
    assert!(matches!(w, Err(StoreError::NotFound(_))));
}

// Creating a collection twice is a redefinition and is rejected.
#[test]
fn duplicate_collection_rejected() {
    let mut client = QdrantClient::new("http://localhost:6334");
    client.create_collection("c", 2, Distance::Cosine).unwrap();
    let again = client.create_collection("c", 3, Distance::Cosine);
    assert!(matches!(again, Err(StoreError::SchemaMismatch(_))));
}

// An embedding with a component beyond the supported range is rejected.
#[test]
fn embedding_component_range() {
    assert!(Embedding::new(vec![10000, -10000]).is_ok());
    assert!(matches!(
        Embedding::new(vec![10001]),
        Err(StoreError::SchemaMismatch(_))
    ));
}

// The gateway answer pairs with the inputs positionally; a length mismatch
// is a provider error.
#[test]
fn gateway_order_preservation() {
    let inputs = vec!["a".to_string(), "b".to_string()];
    let vectors = vec![emb(vec![1, 0]), emb(vec![0, 1])];
    let pairs = pair_embeddings(inputs, vectors).unwrap();
    assert_eq!(pairs.len(), 2);
    assert_eq!(pairs[0].0, "a");
    assert_eq!(pairs[0].1, emb(vec![1, 0]));
    assert_eq!(pairs[1].0, "b");
    assert_eq!(pairs[1].1, emb(vec![0, 1]));

    let short = pair_embeddings(vec!["a".to_string(), "b".to_string()], vec![emb(vec![1, 0])]);
    assert!(matches!(short, Err(StoreError::Provider { .. })));
}

// Mismatched ingest batches are a validation error, not a silent truncation.
#[test]
fn ingest_length_validation() {
    let mut client = QdrantClient::new("http://localhost:6334");
    client.create_multivector_collection("c1", 2, 2).unwrap();
    let r = multivec_store::ingest::ingest_multivector(
        &mut client,
        "c1",
        vec!["p0".to_string(), "p1".to_string()],
        vec!["t0".to_string()],
        vec![emb(vec![1, 2]), emb(vec![3, 4])],
        vec![emb(vec![1, 2]), emb(vec![3, 4])],
    );
    assert!(matches!(r, Err(StoreError::SchemaMismatch(_))));
    let (image_rows, _) = client
        .query_points_multivector("c1", &emb(vec![1, 2]), &emb(vec![1, 2]), 10)
        .unwrap();
    assert!(image_rows.is_empty());
}

// A multivector ingest writes one record per pair with both vectors and the
// path and text in the payload.
#[test]
fn ingest_multivector_round_trip() {
    let mut client = QdrantClient::new("http://localhost:6334");
    client.create_multivector_collection("c1", 2, 2).unwrap();
    multivec_store::ingest::ingest_multivector(
        &mut client,
        "c1",
        vec!["p0".to_string(), "p1".to_string()],
        vec!["t0".to_string(), "t1".to_string()],
        vec![emb(vec![10, 0]), emb(vec![0, 10])],
        vec![emb(vec![10, 0]), emb(vec![0, 10])],
    )
    .unwrap();
    let (image_rows, text_rows) = client
        .query_points_multivector("c1", &emb(vec![10, 0]), &emb(vec![10, 0]), 10)
        .unwrap();
    assert_eq!(image_rows.len(), 2);
    assert_eq!(text_rows.len(), 2);
    assert!(image_rows[0].score.is_one());
    let top = image_rows[0].payload.unwrap();
    assert_eq!(top.get("image_path").unwrap().as_str(), "p0");
    assert_eq!(top.get("text").unwrap().as_str(), "t0");
    assert!(top.get("timestamp").is_some());
}

// The gateway default endpoint stands until overridden.
#[test]
fn gateway_default_url() {
    let g = TextEmbeddingInference::new(None);
    assert_eq!(g.base_url, "http://localhost:8888");
    let g2 = TextEmbeddingInference::new(Some("http://example:80"));
    assert_eq!(g2.base_url, "http://example:80");
}
