//! The decisions of the socket server: who may connect, how many
//! connections and requests are served, and how each frame read is answered.
//! Accepting, reading and writing are done by the caller.

use crate::observability::{CallObservation, PeerCredentials};
use crate::protocol::ErrorCode;
use crate::wire::{spec_is_failure, Response, ResponseError};
use vstd::prelude::*;

verus! {

/// What reading one frame gave.
#[derive(Debug, Clone, Copy, PartialEq, Eq, Structural)]
pub enum FrameEvent {
    /// A complete frame body.
    Body,
    /// A frame announcing zero bytes.
    ZeroLength,
    /// A frame announcing more than the maximum; the stream position is lost.
    Oversize,
    /// The stream ended inside a frame.
    Truncated,
    /// The stream ended between frames, or failed.
    Closed,
}

/// What the connection does next.
#[derive(Debug)]
pub enum ConnAction {
    /// Hand the body to the dispatcher and write its response.
    Dispatch,
    /// Write this response, record this observation, and read on.
    Answer(Response, CallObservation),
    /// Write this response, record this observation, and close.
    AnswerAndClose(Response, CallObservation),
    /// Close without answering.
    Close,
}

/// Whether a peer may use the socket: one of the listed uids, or, when none
/// is listed, this process's own uid.
pub open spec fn spec_peer_uid_allowed(peer: PeerCredentials, allowed: Seq<u32>, own_uid: u32) -> bool {
    if allowed.len() == 0 {
        peer.uid == own_uid
    } else {
        allowed.contains(peer.uid)
    }
}

pub fn peer_uid_allowed(peer: PeerCredentials, allowed: &Vec<u32>, own_uid: u32) -> (r: bool)
    ensures
        r == spec_peer_uid_allowed(peer, allowed@, own_uid),
{
    if allowed.len() == 0 {
        return peer.uid == own_uid;
    }
    let mut i: usize = 0;
    while i < allowed.len()
        invariant
            i <= allowed@.len(),
            forall|j: int| 0 <= j < i ==> allowed@[j] != peer.uid,
        decreases allowed@.len() - i,
    {
        if allowed[i] == peer.uid {
            assert(allowed@[i as int] == peer.uid);
            return true;
        }
        i = i + 1;
    }
    false
}

/// The observation of a refused peer.
pub fn peer_refusal(peer: PeerCredentials) -> (o: CallObservation)
    ensures
        o.peer == peer,
        o.error == Some(ErrorCode::Unauthenticated),
        o.reason == "peer_uid_denied",
        !o.allowed,
        o.agent_id.is_none(),
{
    CallObservation::rejected(peer, ErrorCode::Unauthenticated, "peer_uid_denied")
}

/// Whether another connection may be served while `live` are.
pub fn may_accept(live: usize, max_connections: usize) -> (r: bool)
    ensures
        r == (live < max_connections),
{
    live < max_connections
}

/// Whether another request may be read after `served` on one connection.
pub fn may_read_another(served: u32, max_requests: u32) -> (r: bool)
    ensures
        r == (served < max_requests),
{
    served < max_requests
}

/// How a frame read is answered, and the count of served requests after it:
/// a body is dispatched and counted; a zero-length frame is answered as an
/// invalid request and the connection reads on; an oversize frame is answered
/// the same way and the connection closes; anything else closes silently.
pub fn after_frame(served: u32, event: FrameEvent, peer: PeerCredentials) -> (r: (u32, ConnAction))
    ensures
        r.0 == if event == FrameEvent::Body {
            if served == u32::MAX {
                u32::MAX
            } else {
                (served + 1) as u32
            }
        } else {
            served
        },
        match event {
            FrameEvent::Body => r.1 is Dispatch,
            FrameEvent::ZeroLength => r.1 matches ConnAction::Answer(resp, obs) && spec_is_failure(
                resp,
                None,
                1,
                ResponseError { code: ErrorCode::InvalidRequest, stage: None },
            ) && obs.reason == "zero_length_frame" && obs.error == Some(ErrorCode::InvalidRequest) && obs.peer == peer,
            FrameEvent::Oversize => r.1 matches ConnAction::AnswerAndClose(resp, obs) && spec_is_failure(
                resp,
                None,
                1,
                ResponseError { code: ErrorCode::InvalidRequest, stage: None },
            ) && obs.reason == "oversize_frame" && obs.error == Some(ErrorCode::InvalidRequest) && obs.peer == peer,
            _ => r.1 is Close,
        },
{
    match event {
        FrameEvent::Body => {
            let next = if served == u32::MAX { u32::MAX } else { served + 1 };
            (next, ConnAction::Dispatch)
        },
        FrameEvent::ZeroLength => (
            served,
            ConnAction::Answer(
                Response::failed(None, 1, ResponseError::new(ErrorCode::InvalidRequest)),
                CallObservation::rejected(peer, ErrorCode::InvalidRequest, "zero_length_frame"),
            ),
        ),
        FrameEvent::Oversize => (
            served,
            ConnAction::AnswerAndClose(
                Response::failed(None, 1, ResponseError::new(ErrorCode::InvalidRequest)),
                CallObservation::rejected(peer, ErrorCode::InvalidRequest, "oversize_frame"),
            ),
        ),
        _ => (served, ConnAction::Close),
    }
}

} // verus!
