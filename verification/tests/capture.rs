use agentbed::nix::capture::{activation_filename, changes_fingerprint, may_reserve_activation, may_store_capture, CaptureError, CaptureStore};
use agentbed::nix::command_runner::{CommandOutput, CommandSpec, FakeCommandRunner};
use agentbed::nix::propose::{proposal_diff, propose_unless_captured, CapturedProposal, ProposeError};
use agentbed::nix::capture::StoredCapture;
use agentbed::protocol::{BaseRevision, ConfigFileChange, Digest};

fn change(path: &str, content: &str) -> ConfigFileChange {
    ConfigFileChange { path: path.to_owned(), content: content.to_owned() }
}

fn base() -> BaseRevision {
    BaseRevision { generation: Some("42".to_owned()), etc_git_commit: "abc123".to_owned(), config_digest: Digest::from_sha256_bytes([0x11; 32]) }
}

#[test]
fn the_store_lays_out_its_files_under_the_root() {
    let s = CaptureStore::new("/var/lib/agentbed/capture".to_owned());
    assert_eq!(s.root(), "/var/lib/agentbed/capture");
    assert_eq!(s.active_path(), "/var/lib/agentbed/capture/active.json");
    assert_eq!(s.active_temp_path(), "/var/lib/agentbed/capture/active.json.tmp");
    assert_eq!(s.synced_marker_path(), "/var/lib/agentbed/capture/active.json.synced");
    assert_eq!(s.activations_dir(), "/var/lib/agentbed/capture/activations");
    assert_eq!(
        s.activation_record_path("/nix/store/abc-system"),
        "/var/lib/agentbed/capture/activations/abc-system.activated"
    );
    assert_eq!(
        s.activation_lock_path("/nix/store/abc-system"),
        "/var/lib/agentbed/capture/activations/abc-system.activated.lock"
    );
}

#[test]
fn activation_names_strip_store_prefixes_and_slashes() {
    assert_eq!(activation_filename("/nix/store/a/b"), "a_b.activated");
    assert_eq!(activation_filename("/nix/store//nix/store/a"), "a.activated");
    assert_eq!(activation_filename("/nix/store/x/nix/store/y"), "x_nix_store_y.activated");
    assert_eq!(activation_filename("plain"), "plain.activated");
}

#[test]
fn fingerprints_are_the_json_of_the_changes() {
    assert_eq!(changes_fingerprint(&Vec::new()), "[]");
    assert_eq!(
        changes_fingerprint(&vec![change("/a", "x\"y"), change("/b", "")]),
        "[{\"path\":\"/a\",\"content\":\"x\\\"y\"},{\"path\":\"/b\",\"content\":\"\"}]"
    );
}

#[test]
fn a_capture_or_activation_that_exists_is_a_conflict() {
    assert_eq!(may_store_capture(false), Ok(()));
    assert_eq!(may_store_capture(true), Err(CaptureError::Conflict));
    assert_eq!(may_reserve_activation(false, false), Ok(()));
    assert_eq!(may_reserve_activation(true, true), Err(CaptureError::Conflict));
}

#[test]
fn proposing_while_a_capture_is_active_is_refused() {
    let changes = vec![change("/etc/nixos/a.nix", "{}")];
    let mut runner = FakeCommandRunner::new();
    runner.register(CommandSpec::nix_eval_candidate(&changes), CommandOutput::ok(" /nix/store/c \n".to_owned()));
    let active = StoredCapture {
        capture: CapturedProposal { base_revision: base(), candidate_closure: "x".to_owned(), flake_ref: "f".to_owned(), diff: "d".to_owned() },
        fingerprint: "[]".to_owned(),
    };
    assert!(matches!(
        propose_unless_captured(&mut runner, Ok(Some(active)), &changes, &base()),
        Err(ProposeError::Capture(CaptureError::Conflict))
    ));
    assert!(matches!(
        propose_unless_captured(&mut runner, Err(CaptureError::Io), &changes, &base()),
        Err(ProposeError::Capture(CaptureError::Io))
    ));
    assert!(runner.invocations().is_empty(), "nothing is evaluated while a capture is active");
    let p = propose_unless_captured(&mut runner, Ok(None), &changes, &base()).ok().unwrap();
    assert_eq!(p.capture.candidate_closure, "/nix/store/c");
    assert_eq!(p.diff, "/etc/nixos/a.nix: {}");
    assert_eq!(proposal_diff(&vec![change("/a", "1"), change("/b", "2")]), "/a: 1\n/b: 2");
}
