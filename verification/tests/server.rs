use lhm::protocol::{ParentFilter, PipeRequest, PipeResponse};
use lhm::server::{dispatch, handle_request, response_frame, ActorUnavailable, Dispatch};

#[test]
fn decoded_request_goes_to_the_actor() {
    let request = PipeRequest::QueryHardware { parent_id: ParentFilter::Root, ty: None };
    assert_eq!(
        dispatch(12, Ok(request.clone())),
        Dispatch::Forward { id: 12, request }
    );
}

#[test]
fn undecodable_payload_is_answered_under_the_same_id() {
    assert_eq!(
        dispatch(12, Err("invalid type: unit".to_string())),
        Dispatch::Reply {
            id: 12,
            response: PipeResponse::Error { error: "invalid type: unit".to_string() }
        }
    );
}

#[test]
fn actor_response_is_passed_on() {
    assert_eq!(handle_request(Ok(PipeResponse::Success)), PipeResponse::Success);
    assert_eq!(
        handle_request(Ok(PipeResponse::SensorValue { value: Some(5) })),
        PipeResponse::SensorValue { value: Some(5) }
    );
}

#[test]
fn unreachable_actor_is_an_error_for_that_request() {
    assert_eq!(
        handle_request(Err(ActorUnavailable::QueueClosed)),
        PipeResponse::Error { error: "hardware actor is not running".to_string() }
    );
    assert_eq!(
        handle_request(Err(ActorUnavailable::ReplyDropped)),
        PipeResponse::Error { error: "hardware actor dropped the request".to_string() }
    );
    assert_eq!(ActorUnavailable::QueueClosed.message(), "hardware actor is not running");
    assert_eq!(ActorUnavailable::ReplyDropped.message(), "hardware actor dropped the request");
}

#[test]
fn response_frame_carries_the_request_id() {
    let frame = response_frame(0xDEAD_BEEF, vec![1, 2, 3]);
    assert_eq!(frame.id, 0xDEAD_BEEF);
    assert_eq!(frame.body_bytes(), &[1, 2, 3]);
}
