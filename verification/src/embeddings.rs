//! What is asked of the embedding provider.

use vstd::prelude::*;
use vstd::string::*;

verus! {

/// The model that embeds the texts.
pub const EMBEDDING_MODEL: &'static str = "text-embedding-3-large";

/// The number of components of every embedding. The stored vectors and the
/// query vector share it.
pub const EMBEDDING_DIMENSION: u32 = 1536;

/// A batch of texts to embed in one call. The provider answers with one
/// vector for each text, in the order of the texts.
#[derive(Debug, PartialEq)]
pub struct EmbeddingRequest {
    pub model: String,
    pub dimensions: u32,
    pub input: Vec<String>,
}

/// The request that embeds `texts`, all in one batch and in their order.
pub fn embedding_request(texts: Vec<String>) -> (request: EmbeddingRequest)
    ensures
        request.model@ == EMBEDDING_MODEL@,
        request.dimensions == EMBEDDING_DIMENSION,
        request.input == texts,
{
    EmbeddingRequest {
        model: String::from_str(EMBEDDING_MODEL),
        dimensions: EMBEDDING_DIMENSION,
        input: texts,
    }
}

} // verus!
