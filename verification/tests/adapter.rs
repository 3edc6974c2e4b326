use agentbed::adapter::{unresolved_propose, unresolved_safety_vector, HostAdapter, UnresolvedAdapter};
use agentbed::protocol::{ConfigFileChange, DataSafety, HostSafety, SafetySource, ServiceStateSafety};
use agentbed::tools::system_info::execute;
use agentbed::wire::{HostInfo, LandlockInfo};

#[test]
fn the_unresolved_adapter_claims_no_coverage_anywhere() {
    let mut adapter = UnresolvedAdapter;
    let vector = adapter.safety_vector();
    assert_eq!(vector.root_config, HostSafety::Absent);
    assert_eq!(vector.packages, HostSafety::Absent);
    assert_eq!(vector.service_state, ServiceStateSafety::Absent);
    assert_eq!(vector.home_data, DataSafety::Absent);
    assert_eq!(adapter.safety_source(), SafetySource::UnresolvedAdapter);
    assert!(!adapter.info().resolved);
    assert!(adapter.info().generations.is_none());
    assert_eq!(unresolved_safety_vector(), vector);
}

#[test]
fn the_unresolved_adapter_stages_changes_without_a_candidate() {
    let changes = vec![
        ConfigFileChange { path: "/etc/nixos/a.nix".to_owned(), content: "{}".to_owned() },
        ConfigFileChange { path: "/etc/nixos/b.nix".to_owned(), content: "{ }".to_owned() },
    ];
    let outcome = unresolved_propose(&changes);
    assert_eq!(outcome.diff, "/etc/nixos/a.nix => staged\n/etc/nixos/b.nix => staged");
    assert_eq!(outcome.test_plan.adapter, "unresolved");
    assert_eq!(outcome.test_plan.steps, vec!["noop-test".to_owned()]);
    assert_eq!(outcome.affected_resources, vec!["root_config".to_owned()]);
    assert!(outcome.candidate_closure.is_none());
    let mut adapter = UnresolvedAdapter;
    let via_trait = adapter.propose_config(&changes).unwrap();
    assert_eq!(outcome.diff, via_trait.diff);
}

#[test]
fn system_info_reports_what_the_adapter_reported() {
    let host = HostInfo {
        hostname: "box".to_owned(),
        os_id: "nixos".to_owned(),
        os_version_id: "24.05".to_owned(),
        kernel_release: "6.6.1".to_owned(),
        architecture: "x86_64".to_owned(),
    };
    let landlock = LandlockInfo { supported: true, abi_version: Some(4) };
    let mut adapter = UnresolvedAdapter;
    let report = execute(&mut adapter, host, landlock);
    assert_eq!(report.host.hostname, "box");
    assert_eq!(report.landlock.abi_version, Some(4));
    assert_eq!(report.adapter.kind, "unresolved");
    assert!(!report.adapter.resolved);
    assert_eq!(report.safety, unresolved_safety_vector());
    assert_eq!(report.safety_source, SafetySource::UnresolvedAdapter);
}
