//! The responder: request in, response out, nothing kept between datagrams.

use vstd::prelude::*;
use crate::codec::{decode_request, encode_response, request_in, response_text};
use crate::message::{DecodeError, Request, Response};

verus! {

/// The response owed to `request` when the responder's wall clock reads `now_wall`.
pub open spec fn reply_to(request: Request, now_wall: u64) -> Response {
    Response { send_time: now_wall, cookie: request.cookie }
}

/// What the responder sends back for one datagram: nothing for a datagram that
/// did not decode, the stamped response otherwise.
pub open spec fn reaction(decoded: Result<Request, DecodeError>, now_wall: u64) -> Option<Response> {
    match decoded {
        Ok(request) => Some(reply_to(request, now_wall)),
        Err(_) => None,
    }
}

/// Stamps a request with the current wall clock reading and echoes its cookie.
pub fn stamp(request: Request, now_wall: u64) -> (response: Response)
    ensures
        response == reply_to(request, now_wall),
        response.cookie == request.cookie,
        response.send_time == now_wall,
{
    Response { send_time: now_wall, cookie: request.cookie }
}

/// Handles one datagram. A datagram that failed to decode is dropped: no reply
/// is produced for it. A decoded request is answered with `stamp`.
pub fn handle(decoded: Result<Request, DecodeError>, now_wall: u64) -> (reply: Option<Response>)
    ensures
        reply == reaction(decoded, now_wall),
        decoded is Err <==> reply is None,
{
    match decoded {
        Ok(request) => Some(stamp(request, now_wall)),
        Err(_) => None,
    }
}

/// Answers one datagram at wall clock reading `now_wall`. A datagram that is
/// the text of a request is answered with the text of its stamped response;
/// any other datagram is dropped without a reply.
pub fn respond(datagram: &[u8], now_wall: u64) -> (reply: Option<Vec<u8>>)
    ensures
        match reaction(request_in(datagram@), now_wall) {
            Some(response) => reply is Some && reply.unwrap()@ == response_text(response),
            None => reply is None,
        },
{
    match handle(decode_request(datagram), now_wall) {
        Some(response) => Some(encode_response(response)),
        None => None,
    }
}

/// Every decoded request with cookie `c` is answered, and the answer carries
/// `c` and the wall clock reading at which it was handled.
pub proof fn lemma_reply_echoes(request: Request, now_wall: u64)
    ensures
        reaction(Ok(request), now_wall) == Some(
            Response { send_time: now_wall, cookie: request.cookie },
        ),
{
}

/// A datagram that did not decode gets no reply.
pub proof fn lemma_malformed_unanswered(error: DecodeError, now_wall: u64)
    ensures
        reaction(Err(error), now_wall) is None,
{
}

} // verus!
