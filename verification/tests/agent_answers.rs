//! Questions of the model and the answers to them; limits of a run.
use tpi::agent::answer::AnswerDelivery;
use tpi::agent::answer::AnswerRequest;
use tpi::agent::answer::AnswerRoute;
use tpi::agent::limits::cancel_reason_for_cause;
use tpi::agent::limits::CANCEL_CAUSE_USER;
use tpi::agent::limits::CANCEL_CAUSE_WALL_TIME;
use tpi::ids::RequestId;
use tpi::session::CompletionReason;

#[test]
fn deliver_matching_route() {
    let route = AnswerRoute {
        session_id: "s1".into(),
        request_id: RequestId::from_u128(1),
    };
    let req = AnswerRequest::new(route.clone(), "问题?".into(), 0);
    assert_eq!(req.deliver(&route, 0), AnswerDelivery::Delivered);
}

#[test]
fn wrong_route_is_rejected() {
    let route = AnswerRoute {
        session_id: "s1".into(),
        request_id: RequestId::from_u128(1),
    };
    let wrong = AnswerRoute {
        session_id: "s2".into(),
        request_id: RequestId::from_u128(2),
    };
    let req = AnswerRequest::new(route, "问题?".into(), 0);
    assert_eq!(req.deliver(&wrong, 0), AnswerDelivery::RouteMismatch);
}

#[test]
fn expired_request_rejected() {
    let route = AnswerRoute {
        session_id: "s1".into(),
        request_id: RequestId::from_u128(1),
    };
    let req = AnswerRequest::new(route.clone(), "问题?".into(), 1_000);
    assert_eq!(req.deliver(&route, 2_000), AnswerDelivery::Expired);
}

#[test]
fn an_unknown_time_expires_nothing() {
    let route = AnswerRoute {
        session_id: "s1".into(),
        request_id: RequestId::from_u128(1),
    };
    let req = AnswerRequest::new(route.clone(), "问题?".into(), 1_000);
    assert_eq!(req.deliver(&route, 0), AnswerDelivery::Delivered);
    assert_eq!(req.deliver(&route, 1_000), AnswerDelivery::Delivered);
    assert_eq!(req.deliver(&route, 1_001), AnswerDelivery::Expired);
}

#[test]
fn cancel_reason_distinguishes_wall_time_from_user() {
    assert_eq!(
        cancel_reason_for_cause(CANCEL_CAUSE_WALL_TIME),
        CompletionReason::WallTimeExceeded
    );
    assert_eq!(
        cancel_reason_for_cause(CANCEL_CAUSE_USER),
        CompletionReason::Cancelled
    );
}
