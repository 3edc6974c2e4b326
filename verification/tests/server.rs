use agentbed::observability::PeerCredentials;
use agentbed::protocol::ErrorCode;
use agentbed::server::{after_frame, may_accept, may_read_another, peer_refusal, peer_uid_allowed, ConnAction, FrameEvent};
use agentbed::wire::{Response, ResponseError};

const PEER: PeerCredentials = PeerCredentials { uid: 1000, gid: 1000, pid: 7 };

#[test]
fn only_listed_uids_or_our_own_may_connect() {
    assert!(peer_uid_allowed(PEER, &vec![], 1000));
    assert!(!peer_uid_allowed(PEER, &vec![], 0));
    assert!(peer_uid_allowed(PEER, &vec![5, 1000], 0));
    assert!(!peer_uid_allowed(PEER, &vec![5], 1000), "a list replaces the default");
    let o = peer_refusal(PEER);
    assert_eq!(o.reason, "peer_uid_denied");
    assert_eq!(o.error, Some(ErrorCode::Unauthenticated));
}

#[test]
fn limits_count_connections_and_requests() {
    assert!(may_accept(31, 32));
    assert!(!may_accept(32, 32));
    assert!(may_read_another(1023, 1024));
    assert!(!may_read_another(1024, 1024));
}

#[test]
fn each_frame_event_has_its_answer() {
    assert!(matches!(after_frame(3, FrameEvent::Body, PEER), (4, ConnAction::Dispatch)));
    assert!(matches!(after_frame(u32::MAX, FrameEvent::Body, PEER), (u32::MAX, ConnAction::Dispatch)));
    match after_frame(3, FrameEvent::ZeroLength, PEER) {
        (3, ConnAction::Answer(Response::Failed { id: None, v: 1, error }, o)) => {
            assert_eq!(error, ResponseError::new(ErrorCode::InvalidRequest));
            assert_eq!(o.reason, "zero_length_frame");
        }
        other => panic!("{other:?}"),
    }
    match after_frame(3, FrameEvent::Oversize, PEER) {
        (3, ConnAction::AnswerAndClose(Response::Failed { id: None, .. }, o)) => assert_eq!(o.reason, "oversize_frame"),
        other => panic!("{other:?}"),
    }
    assert!(matches!(after_frame(3, FrameEvent::Truncated, PEER), (3, ConnAction::Close)));
    assert!(matches!(after_frame(3, FrameEvent::Closed, PEER), (3, ConnAction::Close)));
}
