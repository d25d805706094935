//! Building blocks of a semantic-search service: turning a free-text query
//! into keywords, weighting the keywords' embeddings by position, and folding
//! them into the one vector that a nearest-neighbour search consumes.
//!
//! Everything here is pure and synchronous. The network calls (the embedding
//! provider, the chat model, the vector store) belong to the caller, which
//! hands their plain results to the functions of this crate.

pub mod aggregate;
pub mod decimal;
pub mod embeddings;
pub mod entity;
pub mod error;
pub mod keywords;
pub mod pipeline;
pub mod scalar;
pub mod store;
pub mod weights;
