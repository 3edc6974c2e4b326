use agentbed::events::StoredEvent;
use agentbed::protocol::{BaseRevision, Digest, EffectClass, WireState};
use agentbed::storage::wal::{records_consistent_with_checkpoint, WalRecord};
use agentbed::transaction::recovery::{
    parse_tx_state_event_payload, state_from_name, validate_tx_state_events_against_wal, validate_wal_semantics,
};

fn record(seq: u64, tx: &str, state: WireState) -> WalRecord {
    WalRecord {
        record_version: 1,
        seq,
        tx_id: tx.to_owned(),
        state,
        idempotency_key: None,
        idem_fingerprint: None,
        agent_id: "agent".to_owned(),
        manifest_digest: Digest::from_sha256_bytes([1; 32]),
        base_revision: BaseRevision {
            generation: Some("1".to_owned()),
            etc_git_commit: "c".to_owned(),
            config_digest: Digest::from_sha256_bytes([2; 32]),
        },
        effect_set: vec![EffectClass::D],
        diff: "d".to_owned(),
        affected_resources: vec!["root_config".to_owned()],
        approval_ref: None,
        result_json: None,
    }
}

fn event(seq: u64, kind: &str, payload: &str) -> StoredEvent {
    StoredEvent { seq, kind: kind.to_owned(), payload: payload.to_owned() }
}

#[test]
fn a_well_formed_history_validates() {
    assert!(validate_wal_semantics(&Vec::new()));
    let records = vec![
        record(1, "A", WireState::Proposed),
        record(2, "B", WireState::Proposed),
        record(3, "A", WireState::Testing),
        record(4, "A", WireState::Applying),
        record(5, "B", WireState::Rejected),
        record(6, "A", WireState::Probation),
    ];
    assert!(validate_wal_semantics(&records));
}

#[test]
fn chains_are_ordered_by_sequence_number() {
    let records = vec![record(2, "A", WireState::Testing), record(1, "A", WireState::Proposed)];
    assert!(validate_wal_semantics(&records));
}

#[test]
fn a_chain_must_start_proposed_and_follow_the_table() {
    assert!(!validate_wal_semantics(&vec![record(1, "A", WireState::Testing)]));
    assert!(!validate_wal_semantics(&vec![record(1, "A", WireState::Proposed), record(2, "A", WireState::Applying)]));
    assert!(!validate_wal_semantics(&vec![record(1, "A", WireState::Proposed), record(2, "A", WireState::Proposed)]));
}

#[test]
fn watchdog_states_and_unknown_versions_are_refused() {
    assert!(!validate_wal_semantics(&vec![record(1, "A", WireState::Proposed), record(2, "A", WireState::Committed)]));
    let mut r = record(1, "A", WireState::Proposed);
    r.record_version = 2;
    assert!(!validate_wal_semantics(&vec![r]));
}

#[test]
fn the_binding_may_not_change_along_a_chain() {
    let mut next = record(2, "A", WireState::Testing);
    next.diff = "other".to_owned();
    assert!(!validate_wal_semantics(&vec![record(1, "A", WireState::Proposed), next]));
    let mut next = record(2, "A", WireState::Testing);
    next.approval_ref = Some("ap".to_owned());
    assert!(!validate_wal_semantics(&vec![record(1, "A", WireState::Proposed), next]));
    let mut next = record(2, "A", WireState::Testing);
    next.idempotency_key = Some("k".to_owned());
    assert!(validate_wal_semantics(&vec![record(1, "A", WireState::Proposed), next]), "keys are not part of the binding");
}

#[test]
fn state_names_are_the_debug_names() {
    assert_eq!(state_from_name(&"ProbationPassed".to_owned()), Some(WireState::ProbationPassed));
    assert_eq!(state_from_name(&"PROPOSED".to_owned()), None);
}

#[test]
fn payloads_need_exactly_a_tx_id_and_a_state() {
    let fields = |v: Vec<(&str, Option<&str>)>| -> Vec<(String, Option<String>)> {
        v.into_iter().map(|(k, x)| (k.to_owned(), x.map(str::to_owned))).collect()
    };
    assert_eq!(
        parse_tx_state_event_payload(&fields(vec![("state", Some("Testing")), ("tx_id", Some("T"))])),
        Some(("T".to_owned(), WireState::Testing))
    );
    assert_eq!(parse_tx_state_event_payload(&fields(vec![("tx_id", Some("T"))])), None);
    assert_eq!(parse_tx_state_event_payload(&fields(vec![("tx_id", Some("")), ("state", Some("Testing"))])), None);
    assert_eq!(parse_tx_state_event_payload(&fields(vec![("tx_id", Some("T")), ("state", None)])), None);
    assert_eq!(parse_tx_state_event_payload(&fields(vec![("tx_id", Some("T")), ("state", Some("Nope"))])), None);
}

#[test]
fn events_may_lag_the_wal_but_never_lead_it() {
    let records = vec![
        record(1, "A", WireState::Proposed),
        record(2, "A", WireState::Testing),
        record(3, "A", WireState::Applying),
    ];
    let lagging = vec![
        event(1, "tx.state", "{\"tx_id\":\"A\",\"state\":\"Proposed\"}"),
        event(2, "other", "not json"),
        event(3, "tx.state", "{\"state\":\"Testing\",\"tx_id\":\"A\"}"),
    ];
    assert!(validate_tx_state_events_against_wal(&records, &lagging));
    let leading = vec![
        event(1, "tx.state", "{\"tx_id\":\"A\",\"state\":\"Proposed\"}"),
        event(2, "tx.state", "{\"tx_id\":\"A\",\"state\":\"Applying\"}"),
    ];
    assert!(!validate_tx_state_events_against_wal(&records, &leading));
    let unknown_tx = vec![event(1, "tx.state", "{\"tx_id\":\"B\",\"state\":\"Proposed\"}")];
    assert!(!validate_tx_state_events_against_wal(&records, &unknown_tx));
    let malformed = vec![event(1, "tx.state", "{\"tx_id\":\"A\"")];
    assert!(!validate_tx_state_events_against_wal(&records, &malformed));
    assert!(validate_tx_state_events_against_wal(&records, &Vec::new()));
}

#[test]
fn records_must_run_gapless_to_the_checkpoint() {
    let records = vec![record(1, "A", WireState::Proposed), record(2, "A", WireState::Testing)];
    assert!(records_consistent_with_checkpoint(&records, 2));
    assert!(!records_consistent_with_checkpoint(&records, 3));
    assert!(!records_consistent_with_checkpoint(&vec![record(2, "A", WireState::Proposed)], 2));
    assert!(records_consistent_with_checkpoint(&Vec::new(), 0));
}
