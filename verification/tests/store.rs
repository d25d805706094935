use vector_search::embeddings::{embedding_request, EMBEDDING_DIMENSION, EMBEDDING_MODEL};
use vector_search::entity::PayloadRequest;
use vector_search::store::{
    collection_plan, plan_point, plan_points, search_plan, Distance, COLLECTION_NAME,
    DEFAULT_LIMIT, MISSING_VALUE,
};

fn request(values: &[&str]) -> PayloadRequest {
    PayloadRequest {
        key: "title".to_string(),
        value: values.iter().map(|v| v.to_string()).collect(),
        limit: None,
    }
}

fn has_uuid_form(id: &str) -> bool {
    let bytes = id.as_bytes();
    bytes.len() == 36
        && bytes.iter().enumerate().all(|(i, b)| match i {
            8 | 13 | 18 | 23 => *b == b'-',
            _ => b.is_ascii_digit() || (b'a'..=b'f').contains(b),
        })
        && bytes[14] == b'4'
}

#[test]
fn embedding_request_names_model_and_dimension() {
    let texts = vec!["shirt".to_string(), "striped".to_string()];
    let request = embedding_request(texts.clone());
    assert_eq!(request.model, "text-embedding-3-large");
    assert_eq!(request.model, EMBEDDING_MODEL);
    assert_eq!(request.dimensions, 1536);
    assert_eq!(request.dimensions, EMBEDDING_DIMENSION);
    assert_eq!(request.input, texts);
}

#[test]
fn collection_has_the_embedding_dimension() {
    let plan = collection_plan(COLLECTION_NAME);
    assert_eq!(plan.collection_name, "search_test");
    assert_eq!(plan.size, 1536);
    assert_eq!(plan.distance, Distance::Cosine);
}

#[test]
fn search_without_limit_asks_for_ten() {
    let plan = search_plan("search_test", vec![0.5f32, 0.25], None);
    assert_eq!(plan.collection_name, "search_test");
    assert_eq!(plan.vector, vec![0.5, 0.25]);
    assert_eq!(plan.limit, 10);
    assert_eq!(plan.limit, DEFAULT_LIMIT);
    assert!(plan.with_payload);
}

#[test]
fn search_with_limit_asks_for_it() {
    assert_eq!(search_plan("c", vec![1.0f32], Some(3)).limit, 3);
    assert_eq!(search_plan("c", vec![1.0f32], Some(0)).limit, 0);
}

#[test]
fn point_holds_key_and_value_at_its_position() {
    let req = request(&["red shirt", "blue shirt"]);
    let point = plan_point("some-id".to_string(), &req, 1, vec![0.5f32, 1.5]);
    assert_eq!(point.id, "some-id");
    assert_eq!(point.vector, vec![0.5, 1.5]);
    assert_eq!(point.key, "title");
    assert_eq!(point.value, "blue shirt");
}

#[test]
fn point_without_value_is_stored_as_unknown() {
    let req = request(&["red shirt"]);
    let point = plan_point("some-id".to_string(), &req, 1, vec![0.5f32]);
    assert_eq!(point.value, "unknown");
    assert_eq!(point.value, MISSING_VALUE);
}

#[test]
fn one_point_for_each_embedding() {
    let req = request(&["red shirt", "blue shirt"]);
    let vectors = vec![vec![1.0f32, 0.0], vec![0.0, 1.0]];
    let points = plan_points(&req, vectors.clone());
    assert_eq!(points.len(), 2);
    assert_eq!(points[0].vector, vectors[0]);
    assert_eq!(points[1].vector, vectors[1]);
    assert_eq!(points[0].key, "title");
    assert_eq!(points[1].key, "title");
    assert_eq!(points[0].value, "red shirt");
    assert_eq!(points[1].value, "blue shirt");
}

#[test]
fn surplus_embeddings_are_stored_as_unknown() {
    let req = request(&["red shirt"]);
    let vectors = vec![vec![1.0f32], vec![2.0], vec![3.0]];
    let points = plan_points(&req, vectors.clone());
    assert_eq!(points.len(), 3);
    assert_eq!(points[0].value, "red shirt");
    assert_eq!(points[1].value, "unknown");
    assert_eq!(points[2].value, "unknown");
}

#[test]
fn no_embeddings_give_no_points() {
    let req = request(&["red shirt"]);
    let vectors: Vec<Vec<f32>> = Vec::new();
    assert!(plan_points(&req, vectors).is_empty());
}

#[test]
fn point_ids_are_random_uuids() {
    let req = request(&["a", "b", "c", "d"]);
    let vectors = vec![vec![0u8], vec![1], vec![2], vec![3]];
    let points = plan_points(&req, vectors.clone());
    for point in &points {
        assert!(has_uuid_form(&point.id), "{}", point.id);
    }
    for i in 0..points.len() {
        for j in (i + 1)..points.len() {
            assert_ne!(points[i].id, points[j].id);
        }
    }
}
