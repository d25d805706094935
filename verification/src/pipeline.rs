//! A search request, step by step.
//!
//! Serving a search takes three calls to the outside: keyword extraction,
//! embedding, and the nearest-neighbour search. Between them stand the
//! decisions made here. The caller performs the action that a step names and
//! hands the outcome back as the next event; the first failure ends the
//! request.

use vstd::prelude::*;
use vstd::string::*;
use crate::aggregate::{
    aggregate, can_aggregate, is_aggregate_of, rows, viewed, weighted_average,
};
use crate::entity::{is_item_of, QueryRequest, ResultData, ScoredPoint, SearchResultItem};
use crate::error::{message_of, PipelineError};
use crate::keywords::{keywords_or_query, texts, with_fallback};
use crate::store::{effective_limit, search_plan, SearchPlan, COLLECTION_NAME};
use crate::weights::{are_decay_weights, calculate_weights, can_weigh, decay_weights};

use crate::scalar::{exact, Scalar};

verus! {

/// The message of the failure that answers an event that the state of the
/// request does not wait for.
pub const OUT_OF_TURN: &'static str = "Event out of turn";

/// Where a search request stands.
#[derive(Debug, PartialEq)]
pub enum SearchState<T> {
    /// The keywords of `query` have been asked for.
    Extracting { query: String, limit: Option<u64>, decay_rate: T },
    /// The embeddings of the keywords have been asked for.
    Embedding { limit: Option<u64>, decay_rate: T },
    /// The neighbours of the query vector have been asked for.
    Searching,
    /// The request has been answered.
    Finished,
}

/// What came back from the outside.
#[derive(Debug, PartialEq)]
pub enum SearchEvent<T, P> {
    /// The extracted keywords, most salient first.
    Keywords(Vec<String>),
    /// The embeddings of the keywords, in the order of the keywords.
    Vectors(Vec<Vec<T>>),
    /// The hits of the search, best first.
    Hits(Vec<ScoredPoint<T, P>>),
    /// The call failed, with this message.
    Failed(String),
}

/// What the caller is to do next.
#[derive(Debug, PartialEq)]
pub enum SearchAction<T, P> {
    /// Extract the keywords of this query.
    Extract(String),
    /// Embed these texts, in one batch.
    Embed(Vec<String>),
    /// Run this search.
    Search(SearchPlan<T>),
    /// Answer the request with this.
    Respond(ResultData<Vec<SearchResultItem<T, P>>>),
}

/// `answer` is the failed answer that carries `message`.
pub open spec fn is_failure<D>(answer: ResultData<D>, message: Seq<char>) -> bool {
    &&& answer.data is None
    &&& answer.msg@ == message
    &&& !answer.success
}

/// `items` are the hits `points` as they are answered, one for one.
pub open spec fn are_items_of<S, P>(
    items: Seq<SearchResultItem<S, P>>,
    points: Seq<ScoredPoint<S, P>>,
) -> bool {
    &&& items.len() == points.len()
    &&& forall|i: int| 0 <= i < items.len() ==> is_item_of(#[trigger] items[i], points[i])
}

/// The query vector of `vectors` can be computed: the decay weights can, and
/// so can the mean that they weight.
pub open spec fn can_build<T: Scalar>(vectors: Seq<Seq<T>>, decay_rate: T) -> bool {
    &&& can_weigh(vectors.len(), decay_rate)
    &&& can_aggregate(vectors, decay_weights(vectors.len(), decay_rate))
}

/// `result` is an outcome of building the query vector of `vectors`: an
/// outcome of aggregating them with as many decay weights for `decay_rate`
/// as there are vectors.
pub open spec fn is_query_vector_of<T: Scalar>(
    result: Result<Seq<T>, PipelineError>,
    vectors: Seq<Seq<T>>,
    decay_rate: T,
) -> bool {
    exists|weights: Seq<T>|
        {
            &&& weights.len() == vectors.len()
            &&& are_decay_weights(weights, decay_rate)
            &&& exact::<T>() ==> weights == decay_weights(vectors.len(), decay_rate)
            &&& #[trigger] is_aggregate_of(result, vectors, weights)
        }
}

/// Combines the embeddings of the keywords into the query vector: the mean
/// weighted by `decay_rate` to the power of each keyword's position.
pub fn build_query_vector<T: Scalar>(vectors: Vec<Vec<T>>, decay_rate: T) -> (result: Result<
    Vec<T>,
    PipelineError,
>)
    requires
        can_build(rows(vectors@), decay_rate),
    ensures
        is_query_vector_of(viewed(result), rows(vectors@), decay_rate),
        exact::<T>() ==> viewed(result) == aggregate(
            rows(vectors@),
            decay_weights(vectors@.len(), decay_rate),
        ),
{
    let weights = calculate_weights(vectors.len(), decay_rate);
    let ghost used = weights@;
    let result = weighted_average(vectors, weights);
    assert(is_aggregate_of(viewed(result), rows(vectors@), used));
    result
}

/// Turns the hits of a search into the items of the answer, in order.
pub fn answer_items<S, P>(points: Vec<ScoredPoint<S, P>>) -> (items: Vec<SearchResultItem<S, P>>)
    ensures
        are_items_of(items@, points@),
{
    let ghost hits = points@;
    let mut items: Vec<SearchResultItem<S, P>> = Vec::new();
    for point in hit: points
        invariant
            hit.seq() == hits,
            items@.len() == hit.index(),
            forall|i: int| 0 <= i < items@.len() ==> is_item_of(#[trigger] items@[i], hits[i]),
    {
        items.push(SearchResultItem::new_from_scored_point(point));
    }
    items
}

/// Opens a search request: the first thing to do is to extract the keywords
/// of the query.
pub fn start<T, P>(request: QueryRequest, decay_rate: T) -> (step: (
    SearchState<T>,
    SearchAction<T, P>,
))
    ensures
        step.0 == (SearchState::Extracting {
            query: request.value,
            limit: request.limit,
            decay_rate,
        }),
        step.1 matches SearchAction::Extract(query) && query == request.value,
{
    let query = request.value.clone();
    (
        SearchState::Extracting { query, limit: request.limit, decay_rate },
        SearchAction::Extract(request.value),
    )
}

/// `next` and `action` are what follows when `event` arrives in `state`.
///
/// Keywords lead to their embedding, with the query itself in their place
/// where there are none. Embeddings lead to the search for the neighbours of
/// their weighted mean, or to the failure that aggregation reports. Hits lead
/// to the successful answer. A failed call ends the request with its message
/// unchanged, and so does, with `OUT_OF_TURN`, an event that the state does
/// not wait for.
pub open spec fn follows<T: Scalar, P>(
    state: SearchState<T>,
    event: SearchEvent<T, P>,
    next: SearchState<T>,
    action: SearchAction<T, P>,
) -> bool {
    match (state, event) {
        (_, SearchEvent::Failed(message)) => {
            &&& next == SearchState::<T>::Finished
            &&& action matches SearchAction::Respond(answer)
            &&& is_failure(answer, message@)
        },
        (SearchState::Extracting { query, limit, decay_rate }, SearchEvent::Keywords(keywords)) => {
            &&& next == SearchState::Embedding { limit, decay_rate }
            &&& action matches SearchAction::Embed(batch)
            &&& texts(batch@) == keywords_or_query(query@, texts(keywords@))
        },
        (SearchState::Embedding { limit, decay_rate }, SearchEvent::Vectors(vectors)) => {
            match action {
                SearchAction::Search(plan) => {
                    &&& next == SearchState::<T>::Searching
                    &&& is_query_vector_of(Ok(plan.vector@), rows(vectors@), decay_rate)
                    &&& plan.collection_name@ == COLLECTION_NAME@
                    &&& plan.limit == effective_limit(limit)
                    &&& plan.with_payload
                },
                SearchAction::Respond(answer) => {
                    &&& next == SearchState::<T>::Finished
                    &&& exists|error: PipelineError| #[trigger]
                        is_query_vector_of::<T>(Err(error), rows(vectors@), decay_rate)
                            && is_failure(answer, message_of(error))
                },
                _ => false,
            }
        },
        (SearchState::Searching, SearchEvent::Hits(points)) => {
            &&& next == SearchState::<T>::Finished
            &&& action matches SearchAction::Respond(answer)
            &&& answer.success
            &&& answer.msg@ == Seq::<char>::empty()
            &&& answer.data matches Some(items)
            &&& are_items_of(items@, points@)
        },
        _ => {
            &&& next == SearchState::<T>::Finished
            &&& action matches SearchAction::Respond(answer)
            &&& is_failure(answer, OUT_OF_TURN@)
        },
    }
}

/// The failed answer to a call that failed with `message`: the message is
/// passed on as it came.
fn upstream_failure<D>(message: String) -> (answer: ResultData<D>)
    ensures
        is_failure(answer, message@),
{
    ResultData::from_error(&PipelineError::UpstreamFailure(message))
}

/// The step that `event` calls for in `state` can be computed. This asks
/// something only of embeddings that arrive when they are waited for: that
/// their query vector can be computed.
pub open spec fn can_advance<T: Scalar, P>(
    state: SearchState<T>,
    event: SearchEvent<T, P>,
) -> bool {
    match (state, event) {
        (
            SearchState::Embedding { limit, decay_rate },
            SearchEvent::Vectors(vectors),
        ) => can_build(rows(vectors@), decay_rate),
        _ => true,
    }
}

/// Takes a search request one step further: `event` is the outcome of the
/// action that the last step named.
pub fn advance<T: Scalar, P>(state: SearchState<T>, event: SearchEvent<T, P>) -> (step: (
    SearchState<T>,
    SearchAction<T, P>,
))
    requires
        can_advance(state, event),
    ensures
        follows(state, event, step.0, step.1),
{
    match (state, event) {
        (_, SearchEvent::Failed(message)) => (
            SearchState::Finished,
            SearchAction::Respond(upstream_failure(message)),
        ),
        (SearchState::Extracting { query, limit, decay_rate }, SearchEvent::Keywords(keywords)) => (
            SearchState::Embedding { limit, decay_rate },
            SearchAction::Embed(with_fallback(query, keywords)),
        ),
        (SearchState::Embedding { limit, decay_rate }, SearchEvent::Vectors(vectors)) => {
            match build_query_vector(vectors, decay_rate) {
                Ok(vector) => (
                    SearchState::Searching,
                    SearchAction::Search(search_plan(COLLECTION_NAME, vector, limit)),
                ),
                Err(error) => (
                    SearchState::Finished,
                    SearchAction::Respond(ResultData::from_error(&error)),
                ),
            }
        },
        (SearchState::Searching, SearchEvent::Hits(points)) => (
            SearchState::Finished,
            SearchAction::Respond(ResultData::new(answer_items(points))),
        ),
        _ => (
            SearchState::Finished,
            SearchAction::Respond(upstream_failure(String::from_str(OUT_OF_TURN))),
        ),
    }
}

} // verus!
