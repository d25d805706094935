//! The requests that the service takes and the answers that it gives.

use vstd::prelude::*;
use vstd::string::*;
use crate::decimal::{decimal, decimal_text};
use crate::error::{message_of, PipelineError};

verus! {

/// A request to store values: each value is embedded and stored as a record
/// of its own, with `key` in its metadata.
#[derive(Debug, PartialEq)]
pub struct PayloadRequest {
    pub key: String,
    pub value: Vec<String>,
    pub limit: Option<u64>,
}

/// A request to search: a free-text `value`, and at most `limit` results.
#[derive(Debug, PartialEq)]
pub struct QueryRequest {
    pub key: String,
    pub value: String,
    pub limit: Option<u64>,
}

/// The envelope of every answer: the data on success, a message on failure.
#[derive(Debug, PartialEq)]
pub struct ResultData<T> {
    pub data: Option<T>,
    pub msg: String,
    pub success: bool,
}

impl<T> ResultData<T> {
    /// A successful answer that carries `data`.
    pub fn new(data: T) -> (answer: Self)
        ensures
            answer.data == Some(data),
            answer.msg@ == Seq::<char>::empty(),
            answer.success,
    {
        ResultData { data: Some(data), msg: String::new(), success: true }
    }

    /// A failed answer that carries `msg` and no data.
    pub fn new_with_msg(msg: String) -> (answer: Self)
        ensures
            answer.data is None,
            answer.msg == msg,
            !answer.success,
    {
        ResultData { data: None, msg, success: false }
    }

    /// The failed answer that reports `error`.
    pub fn from_error(error: &PipelineError) -> (answer: Self)
        ensures
            answer.data is None,
            answer.msg@ == message_of(*error),
            !answer.success,
    {
        ResultData { data: None, msg: error.message(), success: false }
    }
}

/// The two forms of a stored point's identifier.
#[derive(Debug, PartialEq)]
pub enum PointIdOptions {
    /// A number.
    Num(u64),
    /// A UUID, as text.
    Uuid(String),
}

/// The identifier of a stored point, which may be left unset.
#[derive(Debug, PartialEq)]
pub struct PointId {
    pub point_id_options: Option<PointIdOptions>,
}

/// One hit of a similarity search, as the vector store reports it: what
/// this crate reads of it, with the score and the metadata carried along as
/// they came.
#[derive(Debug, PartialEq)]
pub struct ScoredPoint<S, P> {
    pub id: Option<PointId>,
    pub score: S,
    pub payload: P,
}

/// One hit of a similarity search, as the service answers it.
#[derive(Debug, PartialEq)]
pub struct SearchResultItem<S, P> {
    pub id: String,
    pub score: S,
    pub payload: P,
}

/// The text of a point's identifier: a number in decimal, a UUID as it is,
/// and the empty text where the identifier is missing or unset.
pub open spec fn id_text(id: Option<PointId>) -> Seq<char> {
    match id {
        None => Seq::<char>::empty(),
        Some(id) => match id.point_id_options {
            None => Seq::<char>::empty(),
            Some(PointIdOptions::Num(n)) => decimal(n as nat),
            Some(PointIdOptions::Uuid(text)) => text@,
        },
    }
}

impl<S, P> SearchResultItem<S, P> {
    /// Turns a hit of the vector store into a hit of the answer: the
    /// identifier becomes text, score and metadata stay as they are.
    pub fn new_from_scored_point(point: ScoredPoint<S, P>) -> (item: Self)
        ensures
            item.id@ == id_text(point.id),
            item.score == point.score,
            item.payload == point.payload,
    {
        let id = match point.id {
            None => String::new(),
            Some(id) => match id.point_id_options {
                None => String::new(),
                Some(PointIdOptions::Num(n)) => decimal_text(n),
                Some(PointIdOptions::Uuid(text)) => text,
            },
        };
        SearchResultItem { id, score: point.score, payload: point.payload }
    }
}

/// `item` is what `point` becomes in an answer.
pub open spec fn is_item_of<S, P>(item: SearchResultItem<S, P>, point: ScoredPoint<S, P>) -> bool {
    &&& item.id@ == id_text(point.id)
    &&& item.score == point.score
    &&& item.payload == point.payload
}

} // verus!
