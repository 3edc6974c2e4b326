use agentbed::events::{EventCursor, EventError, EventLog, EventMeta, EventRecord, StoredEvent};
use agentbed::storage::durability::DurabilityError;
use agentbed::storage::files::{decimal, ext_dot, file_stem, has_extension, parse_u64};
use agentbed::storage::idempotency::{binding_file_name, op_for_state, IdempotencyRecord, IdempotencyStore};
use agentbed::storage::wal::{has_ambiguous_temp_files, order_record_files, wal_record_seq, CheckpointRead, WalStore};
use agentbed::protocol::{BaseRevision, Digest, EffectClass, WireState};
use agentbed::storage::wal::WalRecord;
use agentbed::tools::events::replay;
use agentbed::transaction::engine::EngineError;

fn names(v: &[&str]) -> Vec<String> {
    v.iter().map(|s| (*s).to_owned()).collect()
}

#[test]
fn file_names_split_as_path_does() {
    assert_eq!(file_stem("12.json"), "12");
    assert_eq!(file_stem("a.b.json"), "a.b");
    assert_eq!(file_stem(".hidden"), ".hidden");
    assert!(has_extension("1.json", "json"));
    assert!(!has_extension("json", "json"));
    assert_eq!(ext_dot("x.tmp"), Some(1));
    assert_eq!(parse_u64("42"), Some(42));
    assert_eq!(parse_u64("+7"), Some(7));
    assert_eq!(parse_u64("18446744073709551616"), None);
    assert_eq!(parse_u64(""), None);
    assert_eq!(decimal(1205), "1205");
    assert_eq!(wal_record_seq("9.json"), Some(9));
    assert_eq!(wal_record_seq("x.json"), None);
}

#[test]
fn record_files_load_in_sequence_order() {
    let ordered = order_record_files(&names(&["10.json", "2.json", "notes.txt", "x.json", "1.json"]));
    let got: Vec<&str> = ordered.iter().map(|f| f.name.as_str()).collect();
    assert_eq!(got, vec!["1.json", "2.json", "10.json", "x.json"]);
    assert_eq!(ordered[3].order, u64::MAX);
}

#[test]
fn a_temporary_file_or_an_unreadable_directory_is_ambiguous() {
    assert!(has_ambiguous_temp_files(None));
    assert!(has_ambiguous_temp_files(Some(&names(&["1.json", "2.json.tmp"]))));
    assert!(!has_ambiguous_temp_files(Some(&names(&["1.json", "tmp"]))));
}

#[test]
fn the_checkpoint_decides_safe_mode() {
    let w = WalStore::open_with("/s/wal".to_owned(), CheckpointRead::Missing);
    assert!(!w.safe_mode());
    assert_eq!(w.checkpoint_seq(), 0);
    assert!(WalStore::open_with("/s/wal".to_owned(), CheckpointRead::Malformed).safe_mode());
    assert!(WalStore::open_with("/s/wal".to_owned(), CheckpointRead::Unreadable).safe_mode());
    let w = WalStore::open_with("/s/wal".to_owned(), CheckpointRead::At(4));
    assert_eq!(w.checkpoint_seq(), 4);
    assert_eq!(w.records_dir(), "/s/wal/records");
    assert_eq!(w.checkpoint_path(), "/s/wal/checkpoint.json");
    assert_eq!(w.record_path(12), "/s/wal/records/12.json");
    let plan = w.plan_append(5).unwrap();
    assert_eq!(plan.record_temp, "/s/wal/records/5.json.tmp");
    assert_eq!(plan.checkpoint_temp, "/s/wal/checkpoint.json.tmp");
    let revert = w.plan_revert(1);
    assert_eq!(revert.previous_seq, 0);
}

#[test]
fn recovery_hands_out_nothing_in_safe_mode() {
    let w = WalStore::open_with("/s".to_owned(), CheckpointRead::At(0));
    let r = w.recover_with(false, Ok(Vec::new()));
    assert!(!r.safe_mode);
    let r = w.recover_with(true, Ok(Vec::new()));
    assert!(r.safe_mode);
    let r = w.recover_with(false, Err(DurabilityError::Io));
    assert!(r.safe_mode && r.records.is_empty());
    let broken = WalStore::open_with("/s".to_owned(), CheckpointRead::Malformed);
    assert_eq!(broken.plan_append(1), Err(DurabilityError::FsyncFailed));
    assert_eq!(broken.check_load(), Err(DurabilityError::FsyncFailed));
}

fn log() -> EventLog {
    EventLog::open_with("/s/events".to_owned(), Some(EventMeta { log_id: "log-1".to_owned(), next_seq: 1 }), 99)
}

#[test]
fn a_fresh_log_is_named_after_the_process() {
    let l = EventLog::open_with("/s/events".to_owned(), None, 4321);
    assert_eq!(l.log_id(), "log-4321");
    assert_eq!(l.meta().next_seq, 1);
    assert_eq!(l.log_path(), "/s/events/log.jsonl");
    assert_eq!(l.meta_path(), "/s/events/meta.json");
    assert_eq!(l.meta_temp_path(), "/s/events/meta.json.tmp");
}

#[test]
fn appends_number_events_and_replay_hands_out_the_tail() {
    let mut l = log();
    let mut stored: Vec<StoredEvent> = Vec::new();
    for kind in ["a", "b", "c"] {
        stored.push(l.stage_append(EventRecord { kind: kind.to_owned(), payload: "{}".to_owned() }));
    }
    assert_eq!(stored.iter().map(|e| e.seq).collect::<Vec<_>>(), vec![1, 2, 3]);
    assert_eq!(l.validate_integrity(&stored), Ok(()));
    assert_eq!(l.validate_integrity(&stored[..2].to_vec()), Err(EventError::MalformedCursor));

    let after_first = l.cursor_after(&stored[0]);
    let tail = l.replay(&after_first, Ok(stored.clone())).unwrap();
    assert_eq!(tail.iter().map(|e| e.kind.as_str()).collect::<Vec<_>>(), vec!["b", "c"]);
    let latest = l.latest_cursor().unwrap();
    assert_eq!(latest.seq(), 3);
    assert!(l.replay(&latest, Ok(stored.clone())).unwrap().is_empty());
    let anywhere = EventCursor::after(&stored[1]);
    assert_eq!(anywhere.log_id(), "");
    assert_eq!(l.replay(&anywhere, Ok(stored.clone())).unwrap().len(), 1);
}

#[test]
fn replay_refuses_foreign_and_future_cursors() {
    let mut l = log();
    let e = l.stage_append(EventRecord { kind: "a".to_owned(), payload: "{}".to_owned() });
    assert_eq!(l.replay(&EventCursor::foreign("log-2".to_owned(), 0), Ok(vec![e.clone()])), Err(EventError::ForeignLog));
    assert_eq!(
        l.replay(&EventCursor::after_seq("log-1".to_owned(), 5), Ok(vec![e.clone()])),
        Err(EventError::BeyondTail)
    );
    assert_eq!(
        l.replay(&EventCursor::after_seq("log-1".to_owned(), 0), Err(EventError::Io(DurabilityError::Io))),
        Err(EventError::Io(DurabilityError::Io))
    );
    let empty = log();
    assert_eq!(empty.replay(&EventCursor::after_seq(String::new(), 9), Ok(Vec::new())), Ok(Vec::new()));
}

#[test]
fn events_replay_starts_at_the_beginning_without_a_cursor() {
    let mut l = log();
    let a = l.stage_append(EventRecord { kind: "a".to_owned(), payload: "{}".to_owned() });
    let b = l.stage_append(EventRecord { kind: "b".to_owned(), payload: "{}".to_owned() });
    let all = vec![a.clone(), b.clone()];
    assert_eq!(replay(&l, None, Ok(all.clone())).unwrap().events, all);
    assert_eq!(replay(&l, Some(Ok(l.cursor_after(&a))), Ok(all.clone())).unwrap().events, vec![b]);
    assert_eq!(replay(&l, Some(Err(EventError::MalformedCursor)), Ok(all.clone())).err(), Some(EngineError::NotFound));
    assert_eq!(
        replay(&l, None, Err(EventError::Io(DurabilityError::FsyncFailed))).err(),
        Some(EngineError::Storage(DurabilityError::FsyncFailed))
    );
}

#[test]
fn idempotency_bindings_keep_the_first_and_follow_the_wal() {
    assert_eq!(op_for_state(WireState::Proposed), Some("config.propose"));
    assert_eq!(op_for_state(WireState::Applying), Some("tx.apply"));
    assert_eq!(op_for_state(WireState::Testing), None);
    let name = binding_file_name("agent:config.propose:k");
    assert_eq!(name.len(), 16 + ".json".len());
    assert!(name.ends_with(".json"));
    assert_eq!(binding_file_name("agent:config.propose:k"), name);

    let mut store = IdempotencyStore::open_with("/s/idem".to_owned(), Vec::new());
    let rec = IdempotencyRecord {
        key: "a:config.propose:k".to_owned(),
        tx_id: "T".to_owned(),
        fingerprint: "f".to_owned(),
        result_json: "{}".to_owned(),
    };
    assert_eq!(store.get(&rec.key), None);
    store.note_inserted(rec.clone());
    assert_eq!(store.get(&rec.key), Some(rec.clone()));
    let (temp, path) = store.paths_for(&rec.key);
    assert_eq!(temp, format!("{path}.tmp"));
    assert!(path.starts_with("/s/idem/"));
}

fn wal_binding(tx: &str, key: &str) -> WalRecord {
    WalRecord {
        record_version: 1,
        seq: 1,
        tx_id: tx.to_owned(),
        state: WireState::Proposed,
        idempotency_key: Some(key.to_owned()),
        idem_fingerprint: None,
        agent_id: "a".to_owned(),
        manifest_digest: Digest::from_sha256_bytes([1; 32]),
        base_revision: BaseRevision {
            generation: Some("1".to_owned()),
            etc_git_commit: "c".to_owned(),
            config_digest: Digest::from_sha256_bytes([2; 32]),
        },
        effect_set: vec![EffectClass::D],
        diff: "d".to_owned(),
        affected_resources: vec!["root_config".to_owned()],
        approval_ref: None,
        result_json: Some("{\"tx\":1}".to_owned()),
    }
}

#[test]
fn a_put_binding_is_found_and_never_replaced_by_a_merge() {
    let mut store = IdempotencyStore::open_with("/s/idem".to_owned(), Vec::new());
    let first = IdempotencyRecord {
        key: "a:config.propose:k".to_owned(),
        tx_id: "T1".to_owned(),
        fingerprint: "f".to_owned(),
        result_json: "{}".to_owned(),
    };
    let other = IdempotencyRecord { key: "a:config.propose:other".to_owned(), ..first.clone() };
    store.note_inserted(first.clone());
    store.note_inserted(other.clone());
    assert_eq!(store.get(&first.key), Some(first.clone()));
    store.merge_from_wal(&vec![wal_binding("T9", "k"), wal_binding("T8", "fresh")]);
    assert_eq!(store.get(&first.key), Some(first.clone()));
    assert_eq!(store.get(&other.key), Some(other));
    assert_eq!(store.get("a:config.propose:fresh").map(|r| r.tx_id), Some("T8".to_owned()));
    assert_eq!(store.get("a:config.propose:never"), None);
}
