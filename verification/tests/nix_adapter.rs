use agentbed::nix::adapter::NixAdapter;
use agentbed::nix::capture::{may_reserve_activation, CaptureError, CaptureStore};
use agentbed::nix::command_runner::{CommandOutput, CommandSpec, FakeCommandRunner};
use agentbed::nix::command_runner::CommandError;
use agentbed::nix::probe::{hex_to_digest, observed, probe, probe_from, probe_result, ProbeError};
use agentbed::nix::promotion::boot::configure_boot;
use agentbed::nix::promotion::build_step::build;
use agentbed::nix::promotion::flush::flush_boundaries;
use agentbed::nix::promotion::is_live_activation;
use agentbed::nix::promotion::pin::{pin_closure, pin_record, PinRecord};
use agentbed::nix::promotion::profile::advance_profile;
use agentbed::nix::promotion::readback::read_agreement;
use agentbed::nix::promotion::test_activation::{
    activate_reserved, check_base_unmoved, conclude_activation, reservation_outcome, run_activation_test,
    ActivationStep,
};
use agentbed::nix::promotion::PromotionError;
use agentbed::nix::propose::{propose, CapturedProposal};
use agentbed::protocol::{
    BaseRevision, ConfigFileChange, Digest, HostSafety, RecoveryRequires, SafetySource,
};

fn base_revision() -> BaseRevision {
    BaseRevision {
        generation: Some("42".to_owned()),
        etc_git_commit: "abc123".to_owned(),
        config_digest: Digest::from_sha256_bytes([0x11; 32]),
    }
}

fn benign_change() -> ConfigFileChange {
    ConfigFileChange {
        path: "/etc/nixos/services/demo.nix".to_owned(),
        content: "{ services.demo.enable = true; }".to_owned(),
    }
}

fn capture() -> CapturedProposal {
    CapturedProposal {
        base_revision: base_revision(),
        candidate_closure: "/nix/store/candidate-closure".to_owned(),
        flake_ref: "/etc/nixos#agentbed".to_owned(),
        diff: "demo".to_owned(),
    }
}

fn register_probe_commands(runner: &mut FakeCommandRunner) {
    runner.register(CommandSpec::nix_current_generation(), CommandOutput::ok("42\n".to_owned()));
    runner.register(CommandSpec::etc_git_head(), CommandOutput::ok("abc123\n".to_owned()));
    runner.register(CommandSpec::config_digest(), CommandOutput::ok("11".repeat(64)));
}

fn test_command(c: &CapturedProposal) -> CommandSpec {
    CommandSpec::nixos_rebuild_test(&c.flake_ref, c.base_revision.generation.as_deref().unwrap_or(""))
}

#[test]
fn probe_succeeds_with_registered_fixture() {
    let mut runner = FakeCommandRunner::new();
    register_probe_commands(&mut runner);
    let result = probe(&mut runner).expect("probe");
    assert!(result.adapter.resolved);
}

#[test]
fn probe_reports_generation_only_when_verified() {
    let mut runner = FakeCommandRunner::new();
    register_probe_commands(&mut runner);
    let result = probe(&mut runner).expect("probe");
    assert!(result.adapter.resolved);
    assert_eq!(result.adapter.kind, "nix");
    assert_eq!(result.adapter.generations, Some(42));
    assert_eq!(result.safety.root_config, HostSafety::Generation);
    assert_eq!(result.safety.packages, HostSafety::Generation);
    assert_eq!(result.safety.bootloader, HostSafety::Absent);
    assert_eq!(result.safety.kernel, HostSafety::Absent);
    assert_eq!(result.safety_source, SafetySource::AdapterProbe);
    assert_eq!(result.base_revision, base_revision());
}

#[test]
fn probe_refuses_when_generation_missing() {
    let mut runner = FakeCommandRunner::new();
    runner.register(CommandSpec::nix_current_generation(), CommandOutput::err(1, String::new()));
    let err = probe(&mut runner).expect_err("must refuse");
    assert!(matches!(err, ProbeError::IncompleteObservation));
}

#[test]
fn probe_refuses_a_blank_generation() {
    let mut runner = FakeCommandRunner::new();
    register_probe_commands(&mut runner);
    runner.register(CommandSpec::nix_current_generation(), CommandOutput::ok("  \n".to_owned()));
    assert_eq!(probe(&mut runner).err(), Some(ProbeError::IncompleteObservation));
}

#[test]
fn probe_rejects_short_and_non_hex_digest() {
    let mut runner = FakeCommandRunner::new();
    runner.register(CommandSpec::nix_current_generation(), CommandOutput::ok("42\n".to_owned()));
    runner.register(CommandSpec::etc_git_head(), CommandOutput::ok("abc123\n".to_owned()));
    runner.register(CommandSpec::config_digest(), CommandOutput::ok("abc".to_owned()));
    assert!(matches!(probe(&mut runner).expect_err("short"), ProbeError::IncompleteObservation));
    runner.register(CommandSpec::config_digest(), CommandOutput::ok("zz".repeat(32)));
    assert!(matches!(probe(&mut runner).expect_err("non-hex"), ProbeError::IncompleteObservation));
}

#[test]
fn digest_text_is_trimmed_cut_to_sixty_four_and_read_in_pairs() {
    assert_eq!(hex_to_digest(&format!("  {}\n", "ab".repeat(32))).unwrap().bytes, [0xab; 32]);
    assert_eq!(hex_to_digest(&("0F".repeat(32) + "zz")).unwrap().bytes, [0x0f; 32]);
    assert_eq!(hex_to_digest(&"11".repeat(64)).unwrap().bytes, [0x11; 32]);
    assert_eq!(hex_to_digest(&"11".repeat(65)).unwrap().bytes, [0x11; 32]);
    assert_eq!(hex_to_digest(&("11".repeat(127) + "1")).unwrap().bytes, [0x11; 32]);
    assert_eq!(hex_to_digest(&"11".repeat(128)), Err(ProbeError::IncompleteObservation));
    assert_eq!(hex_to_digest(&"+7".repeat(32)).unwrap().bytes, [7; 32]);
    assert_eq!(hex_to_digest(&"1".repeat(63)), Err(ProbeError::IncompleteObservation));
}

#[test]
fn propose_captures_immutable_candidate_and_replays_identically() {
    let mut runner = FakeCommandRunner::new();
    register_probe_commands(&mut runner);
    runner.register(
        CommandSpec::nix_eval_candidate(&vec![benign_change()]),
        CommandOutput::ok("/nix/store/candidate-closure\n".to_owned()),
    );
    let base = base_revision();
    let first = propose(&mut runner, &vec![benign_change()], &base).ok().expect("propose");
    let second = propose(&mut runner, &vec![benign_change()], &base).ok().expect("replay");
    assert_eq!(first.capture.candidate_closure, second.capture.candidate_closure);
    assert_eq!(first.capture.candidate_closure, "/nix/store/candidate-closure");
    assert_eq!(first.capture.base_revision, base);
    assert!(first.diff.contains("demo.nix"));
    assert_eq!(first.test_plan.adapter, "nix");
    assert_eq!(first.test_plan.steps, vec!["nixos-rebuild test"]);
}

#[test]
fn promotion_build_and_test_bind_to_capture() {
    let mut runner = FakeCommandRunner::new();
    let capture = capture();
    runner.register(CommandSpec::nixos_rebuild_build(&capture.flake_ref), CommandOutput::ok("built\n".to_owned()));
    runner.register(
        test_command(&capture),
        CommandOutput::ok("/nix/store/candidate-closure tested\n".to_owned()),
    );
    build(&mut runner, &capture).expect("build");
    let tested = run_activation_test(&mut runner, &capture);
    conclude_activation(tested, Ok(()), &capture).expect("test");
    let invocations = runner.invocations();
    assert!(invocations.iter().any(|c| c.argv_contains("build")));
    assert_eq!(invocations.iter().filter(|c| c.argv_contains("test")).count(), 1);
}

#[test]
fn promotion_pin_profile_boot_flush_readback_happy_path() {
    let mut runner = FakeCommandRunner::new();
    let capture = capture();
    let pinned = "/nix/store/candidate-closure";
    runner.register(CommandSpec::nix_store_realise(pinned), CommandOutput::ok(format!("{pinned}\n")));
    runner.register(CommandSpec::nix_env_profile_set(pinned), CommandOutput::ok(String::new()));
    runner.register(CommandSpec::switch_to_configuration_boot(pinned), CommandOutput::ok(String::new()));
    runner.register(CommandSpec::sync_paths(), CommandOutput::ok(String::new()));
    runner.register(CommandSpec::read_profile_target(), CommandOutput::ok(format!("{pinned}\n")));
    runner.register(CommandSpec::read_boot_default(), CommandOutput::ok(format!("{pinned}\n")));
    runner.register(CommandSpec::read_closure_store_path(pinned), CommandOutput::ok(format!("{pinned}\n")));
    runner.register(CommandSpec::read_closure_hash(pinned), CommandOutput::ok("hash-abc\n".to_owned()));
    assert_eq!(pin_closure(&mut runner, &capture).expect("pin"), pinned);
    let pin = Some(pin_record(&capture));
    advance_profile(&mut runner, &capture, &pin).expect("profile");
    configure_boot(&mut runner, &capture, &pin).expect("boot");
    flush_boundaries(&mut runner).expect("flush");
    let agreement = read_agreement(&mut runner, pinned).expect("readback");
    assert!(agreement.profile_matches);
    assert!(agreement.boot_matches);
    assert!(agreement.closure_matches);
}

#[test]
fn promotion_failures_are_explicit_at_each_boundary() {
    let mut runner = FakeCommandRunner::new();
    let capture = capture();
    runner.register(
        CommandSpec::nixos_rebuild_build(&capture.flake_ref),
        CommandOutput::err(1, "build failed".to_owned()),
    );
    let err = build(&mut runner, &capture).expect_err("build");
    assert_eq!(err, PromotionError::CommandFailed { code: 1, stderr: "build failed".to_owned() });

    runner.clear();
    runner.register(CommandSpec::nixos_rebuild_build(&capture.flake_ref), CommandOutput::ok("built\n".to_owned()));
    runner.register(test_command(&capture), CommandOutput::err(1, "test failed".to_owned()));
    build(&mut runner, &capture).expect("build ok");
    let tested = run_activation_test(&mut runner, &capture);
    let err = conclude_activation(tested, Ok(()), &capture).expect_err("test");
    assert!(matches!(err, PromotionError::CommandFailed { .. }));
}

#[test]
fn readback_detects_profile_boot_mismatch() {
    let mut runner = FakeCommandRunner::new();
    let pinned = "/nix/store/candidate-closure";
    runner.register(CommandSpec::read_profile_target(), CommandOutput::ok("/nix/store/other\n".to_owned()));
    runner.register(CommandSpec::read_boot_default(), CommandOutput::ok(format!("{pinned}\n")));
    runner.register(CommandSpec::read_closure_hash(pinned), CommandOutput::ok("hash-abc\n".to_owned()));
    let err = read_agreement(&mut runner, pinned).expect_err("mismatch");
    assert_eq!(
        err,
        PromotionError::AgreementMismatch {
            profile: "/nix/store/other".to_owned(),
            boot: pinned.to_owned(),
            expected: pinned.to_owned(),
        }
    );
}

#[test]
fn readback_must_query_closure_store_path() {
    let mut runner = FakeCommandRunner::new();
    let pinned = "/nix/store/candidate-closure";
    runner.register(CommandSpec::read_profile_target(), CommandOutput::ok(format!("{pinned}\n")));
    runner.register(CommandSpec::read_boot_default(), CommandOutput::ok(format!("{pinned}\n")));
    runner.register(CommandSpec::read_closure_hash(pinned), CommandOutput::ok("hash-abc\n".to_owned()));
    runner.register(CommandSpec::read_closure_store_path(pinned), CommandOutput::ok(format!("{pinned}\n")));
    read_agreement(&mut runner, pinned).expect("readback");
    assert!(runner.invocations().iter().any(|spec| spec.argv_contains("--out-path")));
}

#[test]
fn pin_closure_must_match_captured_candidate() {
    let mut runner = FakeCommandRunner::new();
    let capture = capture();
    runner.register(
        CommandSpec::nix_store_realise(&capture.candidate_closure),
        CommandOutput::ok("/nix/store/other-closure\n".to_owned()),
    );
    let err = pin_closure(&mut runner, &capture).expect_err("mismatch rejected");
    assert!(matches!(err, PromotionError::ClosureMismatch { .. }));
}

#[test]
fn fake_runner_never_invokes_live_nixos_rebuild() {
    let runner = FakeCommandRunner::new();
    assert!(runner.forbids_live_commands());
}

#[test]
fn an_unregistered_command_is_refused_not_run() {
    let mut runner = FakeCommandRunner::new();
    let err = flush_boundaries(&mut runner).expect_err("nothing registered");
    assert_eq!(err, PromotionError::NotRegistered);
    assert_eq!(runner.invocations().len(), 1);
}

#[test]
fn nix_adapter_host_surface_matches_probe() {
    let mut runner = FakeCommandRunner::new();
    register_probe_commands(&mut runner);
    let store = CaptureStore::new("/tmp/agb6-capture".to_owned());
    let mut adapter = NixAdapter::new(runner, store);
    let info = adapter.info();
    assert!(info.resolved);
    assert_eq!(info.kind, "nix");
    let safety = adapter.safety_vector();
    assert_eq!(safety.root_config, HostSafety::Generation);
    assert_eq!(safety.recovery_requires, RecoveryRequires::RemoteReboot);
    assert_eq!(adapter.safety_source(), SafetySource::AdapterProbe);
    assert_eq!(adapter.probed_base_revision(), Some(base_revision()));
    assert_eq!(adapter.runner().invocations().len(), 3, "the probe ran once and was kept");
}

#[test]
fn an_adapter_whose_probe_fails_claims_nothing() {
    let runner = FakeCommandRunner::new();
    let mut adapter = NixAdapter::new(runner, CaptureStore::new("/tmp/x".to_owned()));
    let info = adapter.info();
    assert!(!info.resolved);
    assert_eq!(info.kind, "nix");
    assert_eq!(adapter.safety_vector().root_config, HostSafety::Absent);
    assert_eq!(adapter.safety_source(), SafetySource::UnresolvedAdapter);
    assert_eq!(adapter.probed_base_revision(), None);
}

#[test]
fn promotion_module_has_no_forbidden_switch_commands() {
    let pinned = "/nix/store/candidate-closure";
    for spec in [
        CommandSpec::nixos_rebuild_build("/etc/nixos#agentbed"),
        CommandSpec::nixos_rebuild_test("/etc/nixos#agentbed", "42"),
        CommandSpec::nix_store_realise(pinned),
        CommandSpec::nix_env_profile_set(pinned),
        CommandSpec::switch_to_configuration_boot(pinned),
        CommandSpec::sync_paths(),
        CommandSpec::read_profile_target(),
        CommandSpec::read_boot_default(),
        CommandSpec::read_closure_hash(pinned),
        CommandSpec::read_closure_store_path(pinned),
    ] {
        assert!(!is_live_activation(&spec), "{:?}", spec.argv);
    }
    let live = CommandSpec { executable: "nixos-rebuild".to_owned(), argv: vec!["nixos-rebuild".to_owned(), "switch".to_owned()], working_dir: None };
    assert!(is_live_activation(&live));
}

#[test]
fn test_activation_allows_only_once_per_candidate() {
    assert_eq!(may_reserve_activation(false, false), Ok(()));
    assert_eq!(reservation_outcome(may_reserve_activation(false, false)), Ok(()));
    assert_eq!(may_reserve_activation(true, false), Err(CaptureError::Conflict));
    assert_eq!(may_reserve_activation(false, true), Err(CaptureError::Conflict));
    assert_eq!(reservation_outcome(may_reserve_activation(true, false)), Err(PromotionError::AlreadyActivated));
    let tested = Ok(CommandOutput::ok("/nix/store/candidate-closure tested\n".to_owned()));
    assert_eq!(
        conclude_activation(tested, Err(CaptureError::Io), &capture()),
        Err(PromotionError::AlreadyActivated)
    );
}

#[test]
fn test_activation_rejects_moved_base() {
    let mut runner = FakeCommandRunner::new();
    runner.register(CommandSpec::nix_current_generation(), CommandOutput::ok("99\n".to_owned()));
    runner.register(CommandSpec::etc_git_head(), CommandOutput::ok("abc123\n".to_owned()));
    runner.register(CommandSpec::config_digest(), CommandOutput::ok("11".repeat(32)));
    assert_eq!(check_base_unmoved(&mut runner, &capture()), Err(PromotionError::BaseMoved));

    let mut same = FakeCommandRunner::new();
    same.register(CommandSpec::nix_current_generation(), CommandOutput::ok("42\n".to_owned()));
    same.register(CommandSpec::etc_git_head(), CommandOutput::ok("abc123\n".to_owned()));
    same.register(CommandSpec::config_digest(), CommandOutput::ok("11".repeat(32)));
    assert_eq!(check_base_unmoved(&mut same, &capture()), Ok(()));
}

#[test]
fn a_test_output_that_does_not_name_the_candidate_is_a_mismatch() {
    let tested = Ok(CommandOutput::ok("  /nix/store/other tested \n".to_owned()));
    assert_eq!(
        conclude_activation(tested, Ok(()), &capture()),
        Err(PromotionError::ClosureMismatch {
            expected: "/nix/store/candidate-closure".to_owned(),
            actual: "/nix/store/other tested".to_owned(),
        })
    );
}

#[test]
fn observations_are_trimmed_and_failures_incomplete() {
    assert_eq!(observed(Ok(CommandOutput::ok("  42 \n".to_owned()))), Ok("42".to_owned()));
    assert_eq!(observed(Err(CommandError::Timeout)), Err(ProbeError::IncompleteObservation));
    let p = probe_result("abc".to_owned(), "head".to_owned(), Digest::from_sha256_bytes([1; 32]));
    assert_eq!(p.adapter.generations, None, "a generation that is not a number gives no count");
    assert_eq!(p.base_revision.generation.as_deref(), Some("abc"));
}

#[test]
fn flush_targets_explicit_profile_and_boot_boundaries() {
    let mut runner = FakeCommandRunner::new();
    runner.register(CommandSpec::sync_paths(), CommandOutput::ok(String::new()));
    flush_boundaries(&mut runner).expect("flush");
    let invocations = runner.invocations();
    assert!(
        invocations.iter().any(|spec| spec.argv_contains("/nix/var/nix/profiles/system")),
        "must flush profile boundary"
    );
    assert!(invocations.iter().any(|spec| spec.argv_contains("/boot")), "must flush boot boundary");
}

#[test]
fn probe_from_reads_trimmed_observations() {
    let r = probe_from(
        Ok(CommandOutput::ok(" 42\n".to_owned())),
        Ok(CommandOutput::ok("abc123\n".to_owned())),
        Ok(CommandOutput::ok("11".repeat(32))),
    )
    .expect("probe");
    assert_eq!(r.adapter.generations, Some(42));
    assert_eq!(r.base_revision, base_revision());
}

#[test]
fn probe_from_refuses_an_empty_generation_or_a_bad_digest() {
    let empty = probe_from(
        Ok(CommandOutput::ok("  \n".to_owned())),
        Ok(CommandOutput::ok("abc123\n".to_owned())),
        Ok(CommandOutput::ok("11".repeat(32))),
    );
    assert_eq!(empty.unwrap_err(), ProbeError::IncompleteObservation);
    let bad = probe_from(
        Ok(CommandOutput::ok("42\n".to_owned())),
        Ok(CommandOutput::ok("abc123\n".to_owned())),
        Ok(CommandOutput::ok("zz".repeat(32))),
    );
    assert_eq!(bad.unwrap_err(), ProbeError::IncompleteObservation);
    let failed = probe_from(
        Ok(CommandOutput::ok("42\n".to_owned())),
        Err(CommandError::NotRegistered),
        Ok(CommandOutput::ok("11".repeat(32))),
    );
    assert_eq!(failed.unwrap_err(), ProbeError::IncompleteObservation);
}

#[test]
fn promotion_hands_the_runner_only_its_own_commands() {
    let mut runner = FakeCommandRunner::new();
    let capture = capture();
    let pinned = "/nix/store/candidate-closure";
    runner.register(CommandSpec::nix_store_realise(pinned), CommandOutput::ok(format!("{pinned}\n")));
    runner.register(CommandSpec::nix_env_profile_set(pinned), CommandOutput::ok(String::new()));
    runner.register(CommandSpec::switch_to_configuration_boot(pinned), CommandOutput::ok(String::new()));
    runner.register(CommandSpec::sync_paths(), CommandOutput::ok(String::new()));
    runner.register(CommandSpec::read_profile_target(), CommandOutput::ok(format!("{pinned}\n")));
    runner.register(CommandSpec::read_boot_default(), CommandOutput::ok(format!("{pinned}\n")));
    runner.register(CommandSpec::read_closure_store_path(pinned), CommandOutput::ok(format!("{pinned}\n")));
    runner.register(CommandSpec::read_closure_hash(pinned), CommandOutput::ok("hash-abc\n".to_owned()));
    pin_closure(&mut runner, &capture).expect("pin");
    let pin = Some(pin_record(&capture));
    advance_profile(&mut runner, &capture, &pin).expect("profile");
    configure_boot(&mut runner, &capture, &pin).expect("boot");
    flush_boundaries(&mut runner).expect("flush");
    read_agreement(&mut runner, pinned).expect("readback");
    let expected = [
        CommandSpec::nix_store_realise(pinned),
        CommandSpec::nix_env_profile_set(pinned),
        CommandSpec::read_profile_target(),
        CommandSpec::read_profile_target(),
        CommandSpec::switch_to_configuration_boot(pinned),
        CommandSpec::sync_paths(),
        CommandSpec::read_profile_target(),
        CommandSpec::read_boot_default(),
        CommandSpec::read_closure_hash(pinned),
        CommandSpec::read_closure_store_path(pinned),
    ];
    let invocations = runner.invocations();
    assert_eq!(invocations.len(), expected.len());
    for (issued, want) in invocations.iter().zip(expected.iter()) {
        assert!(issued.same_as(want), "{:?}", issued.argv);
        assert_ne!(issued.argv[1], "switch");
        assert!(!issued.executable.ends_with("/systemctl"));
        assert!(!issued.executable.ends_with("/systemd-run"));
    }
}

#[test]
fn readback_stops_at_the_first_failed_read() {
    let mut runner = FakeCommandRunner::new();
    let pinned = "/nix/store/candidate-closure";
    runner.register(CommandSpec::read_profile_target(), CommandOutput::ok(format!("{pinned}\n")));
    assert_eq!(read_agreement(&mut runner, pinned).unwrap_err(), PromotionError::NotRegistered);
    let invocations = runner.invocations();
    assert_eq!(invocations.len(), 2);
    assert!(invocations[1].same_as(&CommandSpec::read_boot_default()));
}

fn capture_of(closure: &str) -> CapturedProposal {
    CapturedProposal { candidate_closure: closure.to_owned(), ..capture() }
}

fn pin_candidate(runner: &mut FakeCommandRunner, proposal: &CapturedProposal) -> Option<PinRecord> {
    runner.register(
        CommandSpec::nix_store_realise(&proposal.candidate_closure),
        CommandOutput::ok(format!("{}\n", proposal.candidate_closure)),
    );
    pin_closure(runner, proposal).expect("pin");
    Some(pin_record(proposal))
}

fn is_boot_invocation(spec: &CommandSpec) -> bool {
    spec.argv.get(1).is_some_and(|arg| arg == "boot") && spec.executable.contains("switch-to-configuration")
}

fn profile_read_index(invocations: &[CommandSpec]) -> Option<usize> {
    invocations.iter().position(|spec| spec.same_as(&CommandSpec::read_profile_target()))
}

#[test]
fn probe_rejects_overlong_digest() {
    let mut runner = FakeCommandRunner::new();
    runner.register(CommandSpec::nix_current_generation(), CommandOutput::ok("42\n".to_owned()));
    runner.register(CommandSpec::etc_git_head(), CommandOutput::ok("abc123\n".to_owned()));
    runner.register(CommandSpec::config_digest(), CommandOutput::ok("11".repeat(128)));
    let err = probe(&mut runner).expect_err("overlong digest");
    assert!(matches!(err, ProbeError::IncompleteObservation));
}

#[test]
fn activation_skips_command_when_reservation_fsync_fails() {
    let err = reservation_outcome(Err(CaptureError::Io)).expect_err("fsync fail");
    assert_eq!(err, PromotionError::ReservationNotDurable);
}

#[test]
fn activation_skips_probe_when_root_parent_fsync_fails() {
    assert_eq!(reservation_outcome(Err(CaptureError::Io)), Err(PromotionError::ReservationNotDurable));
    assert_eq!(reservation_outcome(Err(CaptureError::Conflict)), Err(PromotionError::AlreadyActivated));
}

#[test]
fn profile_rejects_without_durable_pin() {
    let mut runner = FakeCommandRunner::new();
    let proposal = capture_of("/nix/store/profile-no-pin");
    let err = advance_profile(&mut runner, &proposal, &None).expect_err("no pin");
    assert_eq!(err, PromotionError::PinRequired);
    assert!(runner.invocations().is_empty(), "must not advance profile");
}

#[test]
fn profile_rejects_capture_without_matching_pin() {
    let mut runner = FakeCommandRunner::new();
    let pinned_capture = capture_of("/nix/store/profile-bypass");
    let other_capture = capture_of("/nix/store/other-closure");
    let pin = pin_candidate(&mut runner, &pinned_capture);
    let err = advance_profile(&mut runner, &other_capture, &pin).expect_err("bypass");
    assert!(matches!(err, PromotionError::PinMismatch { .. }));
}

#[test]
fn boot_rejects_without_durable_pin() {
    let mut runner = FakeCommandRunner::new();
    let proposal = capture_of("/nix/store/boot-no-pin");
    let err = configure_boot(&mut runner, &proposal, &None).expect_err("no pin");
    assert_eq!(err, PromotionError::PinRequired);
    assert!(runner.invocations().is_empty(), "must not configure boot");
}

#[test]
fn boot_rejects_corrupted_pin_record() {
    let mut runner = FakeCommandRunner::new();
    let proposal = capture_of("/nix/store/boot-corrupt");
    pin_candidate(&mut runner, &proposal);
    let corrupted = Some(PinRecord {
        candidate_closure: "/nix/store/other".to_owned(),
        realised_closure: "/nix/store/other".to_owned(),
        base_revision: base_revision(),
    });
    let err = configure_boot(&mut runner, &proposal, &corrupted).expect_err("corrupt pin");
    assert!(matches!(err, PromotionError::PinMismatch { .. }));
}

#[test]
fn boot_rejects_when_profile_not_advanced_to_pin() {
    let mut runner = FakeCommandRunner::new();
    let proposal = capture_of("/nix/store/profile-before-boot");
    let pin = pin_candidate(&mut runner, &proposal);
    runner.register(CommandSpec::read_profile_target(), CommandOutput::ok("/nix/store/stale-profile\n".to_owned()));
    runner.register(CommandSpec::switch_to_configuration_boot(&proposal.candidate_closure), CommandOutput::ok(String::new()));
    let err = configure_boot(&mut runner, &proposal, &pin).expect_err("stale profile");
    assert!(matches!(err, PromotionError::ProfileMismatch { .. }));
    assert!(
        runner.invocations().iter().all(|spec| !is_boot_invocation(spec)),
        "must not invoke switch-to-configuration boot before verified profile"
    );
}

#[test]
fn boot_rejects_when_profile_target_missing() {
    let mut runner = FakeCommandRunner::new();
    let proposal = capture_of("/nix/store/missing-profile-target");
    let pin = pin_candidate(&mut runner, &proposal);
    runner.register(CommandSpec::switch_to_configuration_boot(&proposal.candidate_closure), CommandOutput::ok(String::new()));
    let err = configure_boot(&mut runner, &proposal, &pin).expect_err("missing profile");
    assert_eq!(err, PromotionError::NotRegistered);
    assert!(
        runner.invocations().iter().all(|spec| !is_boot_invocation(spec)),
        "must not invoke boot when profile readback is unavailable"
    );
}

#[test]
fn boot_rejects_when_profile_readback_malformed() {
    let mut runner = FakeCommandRunner::new();
    let proposal = capture_of("/nix/store/malformed-profile");
    let pin = pin_candidate(&mut runner, &proposal);
    runner.register(CommandSpec::read_profile_target(), CommandOutput::ok("   \n".to_owned()));
    runner.register(CommandSpec::switch_to_configuration_boot(&proposal.candidate_closure), CommandOutput::ok(String::new()));
    let err = configure_boot(&mut runner, &proposal, &pin).expect_err("malformed profile");
    assert!(matches!(err, PromotionError::ProfileMismatch { .. }));
    assert!(
        runner.invocations().iter().all(|spec| !is_boot_invocation(spec)),
        "must not invoke boot on malformed profile readback"
    );
}

#[test]
fn profile_rejects_post_set_readback_mismatch() {
    let mut runner = FakeCommandRunner::new();
    let proposal = capture_of("/nix/store/post-set-mismatch");
    let pin = pin_candidate(&mut runner, &proposal);
    runner.register(CommandSpec::nix_env_profile_set(&proposal.candidate_closure), CommandOutput::ok(String::new()));
    runner.register(CommandSpec::read_profile_target(), CommandOutput::ok("/nix/store/still-stale\n".to_owned()));
    let err = advance_profile(&mut runner, &proposal, &pin).expect_err("post-set mismatch");
    assert!(matches!(err, PromotionError::ProfileMismatch { .. }));
}

#[test]
fn profile_advances_when_post_set_readback_matches() {
    let mut runner = FakeCommandRunner::new();
    let proposal = capture_of("/nix/store/post-set-ok");
    let pin = pin_candidate(&mut runner, &proposal);
    runner.register(CommandSpec::nix_env_profile_set(&proposal.candidate_closure), CommandOutput::ok(String::new()));
    runner.register(
        CommandSpec::read_profile_target(),
        CommandOutput::ok(format!("{}\n", proposal.candidate_closure)),
    );
    advance_profile(&mut runner, &proposal, &pin).expect("verified profile advance");
    let invocations = runner.invocations();
    assert!(
        invocations.iter().any(|spec| spec.same_as(&CommandSpec::nix_env_profile_set(&proposal.candidate_closure))),
        "must invoke nix-env --set"
    );
    assert!(profile_read_index(&invocations).is_some(), "must verify profile readback after nix-env --set");
}

#[test]
fn boot_configures_when_profile_matches_pin() {
    let mut runner = FakeCommandRunner::new();
    let proposal = capture_of("/nix/store/boot-profile-verified");
    let pin = pin_candidate(&mut runner, &proposal);
    runner.register(
        CommandSpec::read_profile_target(),
        CommandOutput::ok(format!("{}\n", proposal.candidate_closure)),
    );
    runner.register(CommandSpec::switch_to_configuration_boot(&proposal.candidate_closure), CommandOutput::ok(String::new()));
    configure_boot(&mut runner, &proposal, &pin).expect("verified boot");
    let invocations = runner.invocations();
    let profile_idx = profile_read_index(&invocations).expect("profile readback required");
    let boot_idx = invocations.iter().position(is_boot_invocation).expect("boot invocation required");
    assert!(profile_idx < boot_idx, "profile must be verified before switch-to-configuration boot");
}

#[test]
fn activation_runs_nothing_without_a_durable_reservation_and_tests_on_an_unmoved_base() {
    let mut runner = FakeCommandRunner::new();
    register_probe_commands(&mut runner);
    let c = capture();
    runner.register(test_command(&c), CommandOutput::ok("/nix/store/candidate-closure tested\n".to_owned()));
    assert!(matches!(
        activate_reserved(&mut runner, &c, Err(CaptureError::Io)),
        ActivationStep::Refused(PromotionError::ReservationNotDurable)
    ));
    assert!(matches!(
        activate_reserved(&mut runner, &c, Err(CaptureError::Conflict)),
        ActivationStep::Refused(PromotionError::AlreadyActivated)
    ));
    assert!(runner.invocations().is_empty());
    match activate_reserved(&mut runner, &c, Ok(())) {
        ActivationStep::Tested(out) => assert_eq!(conclude_activation(out, Ok(()), &c), Ok(())),
        other => panic!("{other:?}"),
    }
    assert_eq!(runner.invocations().len(), 4);
    let moved = CapturedProposal { base_revision: BaseRevision { generation: Some("99".to_owned()), ..base_revision() }, ..capture() };
    assert!(matches!(
        activate_reserved(&mut runner, &moved, Ok(())),
        ActivationStep::Release(PromotionError::BaseMoved)
    ));
}
