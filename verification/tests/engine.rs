use agentbed::protocol::{BaseRevision, ConfigFileChange, Digest, EffectClass, WireState};
use agentbed::storage::durability::DurabilityError;
use agentbed::transaction::engine::{
    idem_key, new_tx_id, parse_digest_text, propose_fingerprint, staged_diff, state_name, tx_state_event,
    ConfigProposeParams, EngineError, ProposeStep, TransactionEngine, TxParams,
};

fn base() -> BaseRevision {
    BaseRevision {
        generation: Some("gen-1".to_owned()),
        etc_git_commit: "deadbeef".to_owned(),
        config_digest: Digest::from_sha256_bytes([0x22; 32]),
    }
}

fn params(key: &str, content: &str) -> ConfigProposeParams {
    ConfigProposeParams {
        changes: vec![ConfigFileChange { path: "/etc/nixos/demo.nix".to_owned(), content: content.to_owned() }],
        idempotency_key: key.to_owned(),
    }
}

fn digest_text() -> String {
    Digest::from_sha256_bytes([0xab; 32]).to_text()
}

/// Propose through the engine, the WAL write succeeding.
fn propose(engine: &mut TransactionEngine, agent: &str, p: &ConfigProposeParams) -> String {
    match engine.plan_config_propose(agent, &digest_text(), p, base()).expect("plan") {
        ProposeStep::Write(pending) => {
            let (outcome, event) = engine.commit_config_propose(pending, Ok(())).expect("commit");
            assert_eq!(event.kind, "tx.state");
            assert_eq!(event.payload, format!("{{\"tx_id\":\"{}\",\"state\":\"PROPOSED\"}}", outcome.tx_id));
            outcome.tx_id
        }
        ProposeStep::Replayed(o) => o.tx_id,
    }
}

#[test]
fn transaction_ids_are_ulid_shaped_and_counted() {
    assert_eq!(new_tx_id(0), "01ARZ3NDEKTSV4RRFFQ0000000");
    assert_eq!(new_tx_id(255), "01ARZ3NDEKTSV4RRFFQ00000FF");
    assert_eq!(new_tx_id(0x0FFF_FFFF), "01ARZ3NDEKTSV4RRFFQ0000000");
    assert_eq!(new_tx_id(5).len(), 26);
}

#[test]
fn keys_diffs_and_events_have_their_fixed_shapes() {
    assert_eq!(idem_key("agent", "config.propose", "k1"), "agent:config.propose:k1");
    let changes = vec![
        ConfigFileChange { path: "/a".to_owned(), content: "x".to_owned() },
        ConfigFileChange { path: "/b".to_owned(), content: "y".to_owned() },
    ];
    assert_eq!(staged_diff(&changes), "/a => staged\n/b => staged");
    assert_eq!(staged_diff(&Vec::new()), "");
    assert_eq!(state_name(WireState::ProbationPassed), "ProbationPassed");
    let e = tx_state_event("T1", "Testing");
    assert_eq!(e.payload, "{\"tx_id\":\"T1\",\"state\":\"Testing\"}");
    assert_eq!(
        propose_fingerprint(&params("k", "c\"")),
        "{\"changes\":[{\"path\":\"/etc/nixos/demo.nix\",\"content\":\"c\\\"\"}],\"idempotency_key\":\"k\"}"
    );
}

#[test]
fn digest_text_round_trips() {
    let d = Digest::from_sha256_bytes([0x0f; 32]);
    assert_eq!(parse_digest_text(&d.to_text()), Some(d));
    assert_eq!(parse_digest_text("sha256:zz"), None);
    assert_eq!(parse_digest_text(&"0f".repeat(32)), None);
}

#[test]
fn propose_writes_a_proposed_record_and_replays_by_key() {
    let mut engine = TransactionEngine::open_with(&Vec::new(), false);
    let p = params("k1", "{}");
    let pending = match engine.plan_config_propose("agent-a", &digest_text(), &p, base()).unwrap() {
        ProposeStep::Write(pending) => pending,
        ProposeStep::Replayed(_) => panic!("nothing to replay yet"),
    };
    assert_eq!(pending.record.seq, 1);
    assert_eq!(pending.record.state, WireState::Proposed);
    assert_eq!(pending.record.tx_id, "01ARZ3NDEKTSV4RRFFQ0000000");
    assert_eq!(pending.record.effect_set, vec![EffectClass::D]);
    assert_eq!(pending.record.manifest_digest, Digest::from_sha256_bytes([0xab; 32]));
    assert_eq!(pending.record.idempotency_key.as_deref(), Some("k1"));
    assert_eq!(pending.idem_key, "agent-a:config.propose:k1");
    let (outcome, _) = engine.commit_config_propose(pending, Ok(())).unwrap();
    assert_eq!(outcome.state, WireState::Proposed);
    assert_eq!(outcome.diff, "/etc/nixos/demo.nix => staged");
    assert_eq!(outcome.test_plan.adapter, "unresolved");
    assert_eq!(outcome.affected_resources, vec!["root_config".to_owned()]);
    assert_eq!(outcome.base_revision, base());

    match engine.plan_config_propose("agent-a", &digest_text(), &p, base()).unwrap() {
        ProposeStep::Replayed(again) => assert_eq!(again.tx_id, outcome.tx_id),
        ProposeStep::Write(_) => panic!("the same key and parameters replay"),
    }
    assert!(matches!(
        engine.plan_config_propose("agent-a", &digest_text(), &params("k1", "other"), base()),
        Err(EngineError::IdempotencyConflict)
    ));
    let other = propose(&mut engine, "agent-b", &p);
    assert_ne!(other, outcome.tx_id, "keys are scoped per agent");
}

#[test]
fn an_unparsable_manifest_digest_binds_zeroes() {
    let mut engine = TransactionEngine::open_with(&Vec::new(), false);
    match engine.plan_config_propose("a", "not-a-digest", &params("k", "{}"), base()).unwrap() {
        ProposeStep::Write(pending) => assert_eq!(pending.record.manifest_digest, Digest::from_sha256_bytes([0; 32])),
        ProposeStep::Replayed(_) => panic!(),
    }
}

#[test]
fn a_failed_write_changes_nothing_visible() {
    let mut engine = TransactionEngine::open_with(&Vec::new(), false);
    let pending = match engine.plan_config_propose("a", &digest_text(), &params("k", "{}"), base()).unwrap() {
        ProposeStep::Write(pending) => pending,
        ProposeStep::Replayed(_) => panic!(),
    };
    let tx_id = pending.record.tx_id.clone();
    assert!(matches!(
        engine.commit_config_propose(pending, Err(DurabilityError::FsyncFailed)),
        Err(EngineError::Storage(DurabilityError::FsyncFailed))
    ));
    assert_eq!(engine.tx_status(&tx_id), Err(EngineError::NotFound));
}

#[test]
fn broker_transitions_follow_the_table() {
    let mut engine = TransactionEngine::open_with(&Vec::new(), false);
    let tx_id = propose(&mut engine, "a", &params("k", "{}"));
    let tx = TxParams { tx_id: tx_id.clone() };

    let pending = engine.plan_tx_test("a", &tx).unwrap();
    assert_eq!(pending.record.seq, 2);
    let (step, event) = engine.commit_transition(pending, Ok(())).unwrap();
    assert_eq!(step.state, WireState::Testing);
    assert_eq!(event.payload, format!("{{\"tx_id\":\"{tx_id}\",\"state\":\"Testing\"}}"));
    assert!(matches!(engine.plan_tx_test("a", &tx), Err(EngineError::InvalidTransition)));

    let moved = BaseRevision { generation: Some("gen-2".to_owned()), ..base() };
    assert!(matches!(engine.plan_tx_apply("a", &tx, &moved), Err(EngineError::BaseRevisionMoved)));
    let pending = engine.plan_tx_apply("a", &tx, &base()).unwrap();
    let (step, _) = engine.commit_transition(pending, Ok(())).unwrap();
    assert_eq!(step.state, WireState::Applying);

    let pending = engine.plan_advance_to_probation("a", &tx_id).unwrap();
    engine.commit_transition(pending, Ok(())).unwrap();
    assert!(matches!(
        engine.plan_advance_to_probation("a", &tx_id),
        Err(EngineError::WatchdogAuthorityRequired)
    ));

    let status = engine.tx_status(&tx_id).unwrap();
    assert_eq!(status.state, WireState::Probation);
    assert_eq!(status.effect_set, vec![EffectClass::D]);
    assert_eq!(status.base_revision, Some(base()));
    assert!(matches!(engine.plan_tx_test("a", &TxParams { tx_id: "nope".to_owned() }), Err(EngineError::NotFound)));
}

#[test]
fn safe_mode_refuses_every_d_m_step_and_status() {
    let mut engine = TransactionEngine::open_with(&Vec::new(), true);
    assert!(engine.safe_mode());
    assert!(matches!(
        engine.plan_config_propose("a", &digest_text(), &params("k", "{}"), base()),
        Err(EngineError::SafeMode)
    ));
    assert!(matches!(engine.plan_tx_test("a", &TxParams { tx_id: "t".to_owned() }), Err(EngineError::SafeMode)));
    assert_eq!(engine.tx_status("t"), Err(EngineError::SafeMode));
}

#[test]
fn reopening_over_the_records_restores_the_transactions() {
    let mut engine = TransactionEngine::open_with(&Vec::new(), false);
    let p = params("k", "{}");
    let first = match engine.plan_config_propose("a", &digest_text(), &p, base()).unwrap() {
        ProposeStep::Write(pending) => pending,
        ProposeStep::Replayed(_) => panic!(),
    };
    let record = first.record.clone();
    engine.commit_config_propose(first, Ok(())).unwrap();
    let tx = TxParams { tx_id: record.tx_id.clone() };
    let second = engine.plan_tx_test("a", &tx).unwrap();
    let record2 = second.record.clone();
    engine.commit_transition(second, Ok(())).unwrap();

    let mut reopened = TransactionEngine::open_with(&vec![record, record2], false);
    assert_eq!(reopened.tx_status(&tx.tx_id).unwrap().state, WireState::Testing);
    let next = reopened.plan_tx_apply("a", &tx, &base()).unwrap();
    assert_eq!(next.record.seq, 3, "sequence numbers continue after the highest recovered");
}
