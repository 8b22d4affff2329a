//! Request dispatcher: from an inbound frame to the frame that answers it.
//!
//! Every inbound frame is answered by exactly one frame with the same
//! correlation id. A payload that cannot be decoded and an actor that cannot
//! be reached are answered too, by an `Error` response, and the connection
//! stays open. Decoding and encoding payloads is left to the codec chosen by
//! the program; what to answer is decided here.

use crate::codec::LHMFrame;
use crate::protocol::{PipeRequest, PipeResponse};
use vstd::prelude::*;

verus! {

/// Why the actor gave no response.
#[derive(Clone, Copy, Debug, PartialEq, Eq, Structural)]
pub enum ActorUnavailable {
    /// The actor no longer takes commands.
    QueueClosed,
    /// The actor went away before it answered.
    ReplyDropped,
}

/// Text of the error sent when the actor no longer takes commands.
pub open spec fn queue_closed_message() -> Seq<char> {
    "hardware actor is not running"@
}

/// Text of the error sent when the actor went away before it answered.
pub open spec fn reply_dropped_message() -> Seq<char> {
    "hardware actor dropped the request"@
}

impl ActorUnavailable {
    /// The text sent to the client.
    pub fn message(&self) -> (text: String)
        ensures
            text@ == match *self {
                ActorUnavailable::QueueClosed => queue_closed_message(),
                ActorUnavailable::ReplyDropped => reply_dropped_message(),
            },
    {
        match self {
            ActorUnavailable::QueueClosed => "hardware actor is not running".to_owned(),
            ActorUnavailable::ReplyDropped => "hardware actor dropped the request".to_owned(),
        }
    }
}

/// What to do with an inbound frame once its payload went through the
/// decoder.
#[derive(Debug, PartialEq, Eq)]
pub enum Dispatch {
    /// Hand the request to the actor; its response goes out under `id`.
    Forward { id: u32, request: PipeRequest },
    /// Answer at once.
    Reply { id: u32, response: PipeResponse },
}

/// Decides what happens to the frame with correlation id `id`. A decoded
/// request goes to the actor. A payload that could not be decoded is
/// answered by an error that carries the decoder's message, under the same
/// id.
pub fn dispatch(id: u32, decoded: Result<PipeRequest, String>) -> (step: Dispatch)
    ensures
        step == match decoded {
            Ok(request) => Dispatch::Forward { id, request },
            Err(error) => Dispatch::Reply { id, response: PipeResponse::Error { error } },
        },
{
    match decoded {
        Ok(request) => Dispatch::Forward { id, request },
        Err(error) => Dispatch::Reply { id, response: PipeResponse::Error { error } },
    }
}

/// The response to send for a request that went to the actor: the actor's
/// own, or an error for this one request when the actor could not be
/// reached.
pub fn handle_request(outcome: Result<PipeResponse, ActorUnavailable>) -> (response: PipeResponse)
    ensures
        match outcome {
            Ok(answer) => response == answer,
            Err(ActorUnavailable::QueueClosed) => response@ == (crate::protocol::PipeResponseView::Error {
                error: queue_closed_message(),
            }),
            Err(ActorUnavailable::ReplyDropped) => response@ == (crate::protocol::PipeResponseView::Error {
                error: reply_dropped_message(),
            }),
        },
{
    match outcome {
        Ok(answer) => answer,
        Err(reason) => PipeResponse::Error { error: reason.message() },
    }
}

/// The frame that carries an encoded response back: the payload under the
/// correlation id of the request.
pub fn response_frame(id: u32, payload: Vec<u8>) -> (frame: LHMFrame)
    ensures
        frame.id == id,
        frame.payload() == payload@,
{
    LHMFrame::new(id, payload)
}

} // verus!
