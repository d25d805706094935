//! What is asked of the vector store: the collection, a search in it, and
//! the points that a save writes.

use vstd::prelude::*;
use vstd::string::*;
use crate::embeddings::EMBEDDING_DIMENSION;
use crate::entity::PayloadRequest;

verus! {

/// The collection that the service searches and writes.
pub const COLLECTION_NAME: &'static str = "search_test";

/// How many hits a search returns when the request names no limit.
pub const DEFAULT_LIMIT: u64 = 10;

/// The value stored with a vector that no value of the request belongs to.
pub const MISSING_VALUE: &'static str = "unknown";

/// How the store measures the nearness of two vectors.
#[derive(Debug, Clone, Copy, PartialEq, Eq, Structural)]
pub enum Distance {
    Cosine,
    Euclid,
    Dot,
    Manhattan,
}

/// The layout of a collection.
#[derive(Debug, PartialEq)]
pub struct CollectionPlan {
    pub collection_name: String,
    pub size: u64,
    pub distance: Distance,
}

/// The layout of the collection `collection_name`: vectors of the
/// embeddings' dimension, compared by the cosine of their angle.
pub fn collection_plan(collection_name: &str) -> (plan: CollectionPlan)
    ensures
        plan.collection_name@ == collection_name@,
        plan.size == EMBEDDING_DIMENSION,
        plan.distance == Distance::Cosine,
{
    CollectionPlan {
        collection_name: String::from_str(collection_name),
        size: EMBEDDING_DIMENSION as u64,
        distance: Distance::Cosine,
    }
}

/// A nearest-neighbour search.
#[derive(Debug, PartialEq)]
pub struct SearchPlan<T> {
    pub collection_name: String,
    pub vector: Vec<T>,
    pub limit: u64,
    pub with_payload: bool,
}

/// The number of hits to ask for.
pub open spec fn effective_limit(limit: Option<u64>) -> u64 {
    match limit {
        Some(n) => n,
        None => DEFAULT_LIMIT,
    }
}

/// The search for the neighbours of `vector` in `collection_name`: at most
/// `limit` hits, or the default number where `limit` is absent, each with its
/// metadata.
pub fn search_plan<T>(collection_name: &str, vector: Vec<T>, limit: Option<u64>) -> (plan:
    SearchPlan<T>)
    ensures
        plan.collection_name@ == collection_name@,
        plan.vector == vector,
        plan.limit == effective_limit(limit),
        plan.with_payload,
{
    let limit = match limit {
        Some(n) => n,
        None => DEFAULT_LIMIT,
    };
    SearchPlan {
        collection_name: String::from_str(collection_name),
        vector,
        limit,
        with_payload: true,
    }
}

/// A point to write: its identifier, its vector, and the one entry of its
/// metadata.
#[derive(Debug, PartialEq)]
pub struct PointPlan<T> {
    pub id: String,
    pub vector: Vec<T>,
    pub key: String,
    pub value: String,
}

/// A digit of lower-case hexadecimal.
pub open spec fn is_lower_hex(c: char) -> bool {
    ('0' <= c && c <= '9') || ('a' <= c && c <= 'f')
}

/// `text` has the form of a random UUID written in lower case with hyphens:
/// five groups of 8, 4, 4, 4 and 12 hexadecimal digits, the third group
/// beginning with the version, 4.
pub open spec fn is_random_uuid_text(text: Seq<char>) -> bool {
    &&& text.len() == 36
    &&& forall|i: int|
        0 <= i < 36 ==> if i == 8 || i == 13 || i == 18 || i == 23 {
            text[i] == '-'
        } else {
            is_lower_hex(#[trigger] text[i])
        }
    &&& text[14] == '4'
}

/// A new random identifier, from `uuid::Uuid::new_v4` and written out by its
/// `Display`. Nothing is claimed of the value but its form; two calls may
/// give any two such texts. The call stops the program if the operating
/// system hands out no random bytes.
#[verifier::external_body]
fn fresh_point_id() -> (id: String)
    ensures
        is_random_uuid_text(id@),
{
    uuid::Uuid::new_v4().to_string()
}

/// The value that is stored with the vector at `index`: the value of the
/// request at that position, or `MISSING_VALUE` where the request has none.
pub open spec fn stored_value(values: Seq<String>, index: int) -> Seq<char> {
    if 0 <= index < values.len() {
        values[index]@
    } else {
        MISSING_VALUE@
    }
}

/// `point` is the point that stores `vector` as the embedding at `index` of
/// the values of `req`, under the identifier `id`.
pub open spec fn is_point_of<T>(
    point: PointPlan<T>,
    id: Seq<char>,
    req: PayloadRequest,
    index: int,
    vector: Seq<T>,
) -> bool {
    &&& point.id@ == id
    &&& point.vector@ == vector
    &&& point.key@ == req.key@
    &&& point.value@ == stored_value(req.value@, index)
}

/// The point that stores `vector`, the embedding at `index` of the values of
/// `req`, under the identifier `id`.
pub fn plan_point<T>(id: String, req: &PayloadRequest, index: usize, vector: Vec<T>) -> (point:
    PointPlan<T>)
    ensures
        is_point_of(point, id@, *req, index as int, vector@),
{
    let value = if index < req.value.len() {
        req.value[index].clone()
    } else {
        String::from_str(MISSING_VALUE)
    };
    PointPlan { id, vector, key: req.key.clone(), value }
}

/// The points that a save writes: one for each embedding, in order, each
/// under a fresh random identifier and with the request's key and the value
/// that was embedded.
pub fn plan_points<T>(req: &PayloadRequest, vectors: Vec<Vec<T>>) -> (points: Vec<PointPlan<T>>)
    ensures
        points@.len() == vectors@.len(),
        forall|i: int|
            0 <= i < points@.len() ==> is_random_uuid_text((#[trigger] points@[i]).id@)
                && is_point_of(points@[i], points@[i].id@, *req, i, vectors@[i]@),
{
    let ghost embeddings = vectors@;
    let mut points: Vec<PointPlan<T>> = Vec::new();
    for vector in embedding: vectors
        invariant
            embedding.seq() == embeddings,
            points@.len() == embedding.index(),
            forall|k: int|
                0 <= k < points@.len() ==> is_random_uuid_text((#[trigger] points@[k]).id@)
                    && is_point_of(points@[k], points@[k].id@, *req, k, embeddings[k]@),
    {
        let id = fresh_point_id();
        let point = plan_point(id, req, points.len(), vector);
        points.push(point);
    }
    points
}

} // verus!
