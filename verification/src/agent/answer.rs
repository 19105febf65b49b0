//! Answers to questions that the model asked.
//!
//! A question is answered only by way of its own route, and not after it has expired.
use crate::ids::RequestId;
use crate::text::same;
use vstd::prelude::*;

verus! {

/// Whose question an answer is for.
#[derive(Debug, Clone, PartialEq, Eq)]
pub struct AnswerRoute {
    pub session_id: String,
    pub request_id: RequestId,
}

/// A question that waits for an answer.
#[derive(Debug, Clone, PartialEq, Eq)]
pub struct AnswerRequest {
    pub route: AnswerRoute,
    /// The question as the model put it.
    pub question: String,
    /// When the question expires, in seconds of Unix time; 0 stands for never.
    pub expires_at: u64,
}

/// What became of an answer.
#[derive(Debug, Clone, Copy, PartialEq, Eq, Structural)]
pub enum AnswerDelivery {
    /// The answer arrived.
    Delivered,
    /// The question had expired.
    Expired,
    /// The answer was for another question.
    RouteMismatch,
    /// There was no question.
    UnknownRequest,
}

/// Whether two routes lead to the same question.
pub open spec fn same_route(a: AnswerRoute, b: AnswerRoute) -> bool {
    a.request_id == b.request_id && a.session_id@ == b.session_id@
}

/// Whether a question has expired at `now`; where either time is 0 it has not.
pub open spec fn expired(expires_at: u64, now: u64) -> bool {
    expires_at != 0 && now != 0 && now > expires_at
}

/// What becomes of an answer.
pub open spec fn delivery_of(request: AnswerRequest, route: AnswerRoute, now: u64) -> AnswerDelivery {
    if !same_route(route, request.route) {
        AnswerDelivery::RouteMismatch
    } else if expired(request.expires_at, now) {
        AnswerDelivery::Expired
    } else {
        AnswerDelivery::Delivered
    }
}

impl AnswerRequest {
    /// A question.
    pub fn new(route: AnswerRoute, question: String, expires_at: u64) -> (r: Self)
        ensures
            r == (AnswerRequest { route, question, expires_at }),
    {
        AnswerRequest { route, question, expires_at }
    }

    /// What becomes of an answer that comes by `route` at `now`, in seconds of Unix time;
    /// 0 stands for an unknown time.
    pub fn deliver(&self, route: &AnswerRoute, now: u64) -> (r: AnswerDelivery)
        ensures
            r == delivery_of(*self, *route, now),
    {
        if route.request_id != self.route.request_id || !same(
            route.session_id.as_str(),
            self.route.session_id.as_str(),
        ) {
            return AnswerDelivery::RouteMismatch;
        }
        if self.expires_at != 0 && now != 0 && now > self.expires_at {
            return AnswerDelivery::Expired;
        }
        AnswerDelivery::Delivered
    }
}

/// An answer arrives only by the route of its question and in time; and one that does so
/// arrives.
pub proof fn only_the_route_delivers(request: AnswerRequest, route: AnswerRoute, now: u64)
    ensures
        (delivery_of(request, route, now) == AnswerDelivery::Delivered) == (same_route(
            route,
            request.route,
        ) && !expired(request.expires_at, now)),
{
}

/// A question that has expired stays expired.
pub proof fn expiry_is_final(request: AnswerRequest, route: AnswerRoute, now: u64, later: u64)
    requires
        delivery_of(request, route, now) == AnswerDelivery::Expired,
        later >= now,
    ensures
        delivery_of(request, route, later) == AnswerDelivery::Expired,
{
}

} // verus!
