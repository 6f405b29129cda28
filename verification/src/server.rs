//! The server's dispatch and shutdown decisions.
//!
//! The accept loop, the connections and the document store live outside
//! this crate; a worker job hands the decoded request and the store's
//! answer to the functions here and sends back whatever they decide. The
//! decisions themselves — which response a request is owed, and that a
//! request observed after shutdown is dropped without a reply — are
//! verified here.

use crate::message::{Request, RequestModel, Response, ResponseModel};
use vstd::prelude::*;

verus! {

/// What the document store answered to one request.
pub enum StoreReply {
    /// `publish(doc)` stored the document under this identifier.
    Published(u64),
    /// `search(word)` returned these identifiers, in the store's order.
    Matches(Vec<u64>),
    /// `retrieve(id)` found the document.
    Fetched(String),
    /// `retrieve(id)` found nothing.
    Missing,
}

/// The mathematical value of a [`StoreReply`].
#[verifier::ext_equal]
pub enum StoreReplyModel {
    Published { id: u64 },
    Matches { ids: Seq<u64> },
    Fetched { doc: Seq<char> },
    Missing,
}

impl View for StoreReply {
    type V = StoreReplyModel;

    open spec fn view(&self) -> StoreReplyModel {
        match self {
            StoreReply::Published(id) => StoreReplyModel::Published { id: *id },
            StoreReply::Matches(ids) => StoreReplyModel::Matches { ids: ids@ },
            StoreReply::Fetched(doc) => StoreReplyModel::Fetched { doc: doc@ },
            StoreReply::Missing => StoreReplyModel::Missing,
        }
    }
}

/// The response owed for a request once the store has answered: success
/// carrying the store's answer when the answer fits the request, and
/// `Failure` when retrieval found nothing — or when the reply does not fit
/// the request's shape, so that a confused store never crashes dispatch.
pub open spec fn response_model_for(request: RequestModel, reply: StoreReplyModel) -> ResponseModel {
    match (request, reply) {
        (RequestModel::Publish { .. }, StoreReplyModel::Published { id }) =>
            ResponseModel::PublishSuccess { id },
        (RequestModel::Search { .. }, StoreReplyModel::Matches { ids }) =>
            ResponseModel::SearchSuccess { ids },
        (RequestModel::Retrieve { .. }, StoreReplyModel::Fetched { doc }) =>
            ResponseModel::RetrieveSuccess { doc },
        _ => ResponseModel::Failure,
    }
}

/// Builds the response a request is owed from the store's answer.
pub fn response_for(request: &Request, reply: StoreReply) -> (r: Response)
    ensures
        r@ == response_model_for(request@, reply@),
{
    match (request, reply) {
        (Request::Publish { .. }, StoreReply::Published(id)) => Response::PublishSuccess(id),
        (Request::Search { .. }, StoreReply::Matches(ids)) => Response::SearchSuccess(ids),
        (Request::Retrieve { .. }, StoreReply::Fetched(doc)) => Response::RetrieveSuccess(doc),
        _ => Response::Failure,
    }
}

/// One worker job's decision: a request that observes the shutdown flag
/// set is dropped without any reply — never a successful response — and
/// otherwise the store's answer becomes the response owed, to be written
/// back on the request's own connection.
pub fn process_step(stopped: bool, request: &Request, reply: StoreReply) -> (r: Option<Response>)
    ensures
        stopped ==> r is None,
        !stopped ==> (r matches Some(resp) && resp@ == response_model_for(request@, reply@)),
{
    if stopped {
        None
    } else {
        Some(response_for(request, reply))
    }
}

/// The server's shutdown flag: it moves from clear to set exactly once
/// and is never reset. The atomic cell that shares it between threads
/// lives with them, outside this crate; every transition goes through
/// these operations.
pub struct ShutdownFlag {
    /// Whether shutdown has been requested.
    pub stopped: bool,
}

impl ShutdownFlag {
    /// A fresh flag: shutdown not yet requested.
    pub fn new() -> (f: Self)
        ensures
            !f.stopped,
    {
        ShutdownFlag { stopped: false }
    }

    /// Requests shutdown. Stopping is idempotent: the flag is set
    /// afterwards whether or not it already was, and a second call
    /// changes nothing further.
    pub fn stop(&mut self)
        ensures
            final(self).stopped,
    {
        self.stopped = true;
    }

    /// Whether shutdown has been requested.
    pub fn is_stopped(&self) -> (b: bool)
        ensures
            b == self.stopped,
    {
        self.stopped
    }
}

} // verus!
