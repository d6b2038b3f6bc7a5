use multivec_store::embedding::Embedding;
use multivec_store::payload::{texts_to_payload, Payload};
use multivec_store::schema::{Distance, QuerySpace};
use multivec_store::store::QdrantClient;

fn emb(v: Vec<i64>) -> Embedding {
    Embedding::new(v).unwrap()
}

fn setup(client: &mut QdrantClient) -> String {
    let collection_name = "test_collection".to_string();
    client
        .create_collection(&collection_name, 5, Distance::Cosine)
        .unwrap();
    collection_name
}

fn setup_multivector(client: &mut QdrantClient) -> String {
    let collection_name = "test_collection_mv".to_string();
    client
        .create_multivector_collection(&collection_name, 5, 5)
        .unwrap();
    collection_name
}

fn hello_payload() -> Payload {
    Payload::single("text".to_string(), "Hello World".to_string())
}

fn mv_payload() -> Payload {
    let mut p = Payload::single("text".to_string(), "Hello World".to_string());
    p.push("image_path".to_string(), "path/to/image.jpg".to_string());
    p
}

fn insert_points(client: &mut QdrantClient, collection_name: &str) {
    client
        .upsert_points(collection_name, vec![emb(vec![1, 2, 3, 4, 5])], vec![hello_payload()])
        .unwrap();
}

fn insert_multivector_points(client: &mut QdrantClient, collection_name: &str) {
    client
        .upsert_points_multivector(
            collection_name,
            emb(vec![1, 2, 3, 4, 5]),
            emb(vec![-1, -2, -3, -4, -5]),
            mv_payload(),
        )
        .unwrap();
}

#[test]
fn test_texts_to_payload() {
    let texts = vec!["Hello World".to_string(), "Ola Mundo".to_string()];
    let payload = texts_to_payload(texts, "text").unwrap();
    assert_eq!(payload.len(), 2);
}

#[test]
fn test_qdrant_client_create_collection() {
    let mut client = QdrantClient::new("http://localhost:6334");
    client
        .create_collection("test_collection", 5, Distance::Cosine)
        .unwrap();
    client.delete_all_collections().unwrap();
}

#[test]
fn test_qdrant_client() {
    let mut client = QdrantClient::new("http://localhost:6334");
    let collection_name = setup(&mut client);
    let collections = client.get_collections().unwrap();
    assert!(collections.iter().any(|c| *c == collection_name));
    println!("{:?}", collections);
    client.delete_all_collections().unwrap();
}

#[test]
fn test_qdrant_client_check_collection() {
    let mut client = QdrantClient::new("http://localhost:6334");
    let collection_name = setup(&mut client);
    let collection_exists = client.check_collection(&collection_name).unwrap();
    assert!(collection_exists);
    client.delete_all_collections().unwrap();
}

#[test]
fn test_qdrant_client_delete_collection() {
    let mut client = QdrantClient::new("http://localhost:6334");
    let collection_name = setup(&mut client);
    client.delete_collection(&collection_name).unwrap();
    client.delete_all_collections().unwrap();
}

#[test]
fn test_qdrant_client_delete_all_collections() {
    let mut client = QdrantClient::new("http://localhost:6334");
    client.create_collection("one", 5, Distance::Cosine).unwrap();
    client.create_collection("two", 5, Distance::Cosine).unwrap();
    client.delete_all_collections().unwrap();
    let collections = client.get_collections().unwrap();
    assert!(collections.is_empty());
}

#[test]
fn test_qdrant_client_upsert_points() {
    let mut client = QdrantClient::new("http://localhost:6334");
    let collection_name = setup(&mut client);
    client
        .upsert_points(&collection_name, vec![emb(vec![1, 2, 3, 4, 5])], vec![hello_payload()])
        .unwrap();
    client.delete_all_collections().unwrap();
}

#[test]
fn test_qdrant_client_query_points() {
    let mut client = QdrantClient::new("http://localhost:6334");
    let collection_name = setup(&mut client);
    insert_points(&mut client, &collection_name);
    let q = emb(vec![1, 2, 3, 4, 5]);
    let rows = client.query_points(&collection_name, &q, 10).unwrap();
    assert_eq!(rows.len(), 1);
}

#[test]
fn test_qdrant_client_search_points() {
    let mut client = QdrantClient::new("http://localhost:6334");
    let collection_name = setup(&mut client);
    insert_points(&mut client, &collection_name);
    let q = emb(vec![1, 2, 3, 4, 5]);
    let rows = client.search_points(&collection_name, &q, 10).unwrap();
    assert_eq!(rows.len(), 1);
    // search results carry no payload
    assert!(rows[0].payload.is_none());
}

#[test]
fn test_qdrant_client_search_batch_points() {
    let mut client = QdrantClient::new("http://localhost:6334");
    let collection_name = setup(&mut client);
    insert_points(&mut client, &collection_name);
    let result = client.search_batch_points(&collection_name, &vec![], 10).unwrap();
    assert!(result.is_empty());
}

#[test]
fn test_qdrant_client_create_multivector_collection() {
    let mut client = QdrantClient::new("http://localhost:6334");
    client
        .create_multivector_collection("test_collection_mv", 10, 10)
        .unwrap();
    client.delete_all_collections().unwrap();
}

#[test]
fn test_qdrant_client_upsert_points_multivector() {
    let mut client = QdrantClient::new("http://localhost:6334");
    let collection_name = setup_multivector(&mut client);
    client
        .upsert_points_multivector(
            &collection_name,
            emb(vec![1, 2, 3, 4, 5]),
            emb(vec![-1, -2, -3, -4, -5]),
            mv_payload(),
        )
        .unwrap();
    client.delete_all_collections().unwrap();
}

#[test]
fn test_qdrant_client_query_points_multivector() {
    let mut client = QdrantClient::new("http://localhost:6334");
    let collection_name = setup_multivector(&mut client);
    insert_multivector_points(&mut client, &collection_name);
    let (image_rows, text_rows) = client
        .query_points_multivector(
            &collection_name,
            &emb(vec![1, 2, 3, 4, 5]),
            &emb(vec![-1, -2, -3, -4, -5]),
            10,
        )
        .unwrap();
    assert_eq!(image_rows.len(), 1);
    assert_eq!(text_rows.len(), 1);
}

#[test]
fn test_qdrant_client_query_points_named() {
    let mut client = QdrantClient::new("http://localhost:6334");
    let collection_name = setup_multivector(&mut client);
    insert_multivector_points(&mut client, &collection_name);
    let rows = client
        .query_points_named(&collection_name, &emb(vec![1, 2, 3, 4, 5]), 10, QuerySpace::Text)
        .unwrap();
    assert_eq!(rows.len(), 1);
}
