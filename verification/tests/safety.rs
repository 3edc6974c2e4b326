use agentbed::protocol::{
    DataSafety, ExternalEffectsSafety, HostSafety, RecoveryRequires, SafetyVector, ServiceStateSafety,
};
use agentbed::safety::{meets_minimum, MinSafety, Resource};

fn vector(root: HostSafety, home: DataSafety) -> SafetyVector {
    SafetyVector {
        root_config: root,
        packages: root,
        bootloader: HostSafety::Absent,
        kernel: HostSafety::Absent,
        service_state: ServiceStateSafety::DesiredState,
        plugin_data: DataSafety::DedicatedSnapshot,
        desktop_data: DataSafety::DedicatedSnapshot,
        home_data: home,
        external_effects: ExternalEffectsSafety::Absent,
        recovery_requires: RecoveryRequires::OobConsole,
    }
}

#[test]
fn none_is_refused_even_when_the_manifest_asks_for_nothing() {
    let host = vector(HostSafety::Absent, DataSafety::Absent);
    let empty = MinSafety::default();
    assert!(!meets_minimum(Resource::RootConfig, &host, &empty));
    assert!(!meets_minimum(Resource::HomeData, &host, &empty));
}

#[test]
fn coverage_must_reach_the_declared_minimum() {
    let host = vector(HostSafety::SnapshotReboot, DataSafety::DedicatedSnapshot);
    let demanding = MinSafety { root_config: Some(HostSafety::Generation), ..MinSafety::default() };
    assert!(!meets_minimum(Resource::RootConfig, &host, &demanding));

    let satisfied = MinSafety { root_config: Some(HostSafety::SnapshotReboot), ..MinSafety::default() };
    assert!(meets_minimum(Resource::RootConfig, &host, &satisfied));
}

#[test]
fn service_state_uses_its_own_two_value_order() {
    let mut host = vector(HostSafety::Generation, DataSafety::DedicatedSnapshot);
    assert!(meets_minimum(Resource::ServiceState, &host, &MinSafety::default()));
    host.service_state = ServiceStateSafety::Absent;
    assert!(!meets_minimum(Resource::ServiceState, &host, &MinSafety::default()));
}

#[test]
fn external_effects_is_never_a_mutable_target() {
    let host = vector(HostSafety::Generation, DataSafety::DedicatedSnapshot);
    assert!(!meets_minimum(Resource::ExternalEffects, &host, &MinSafety::default()));
}

#[test]
fn higher_coverage_meets_a_lower_minimum() {
    let host = vector(HostSafety::Generation, DataSafety::DedicatedSnapshot);
    let min = MinSafety { packages: Some(HostSafety::SnapshotLive), ..MinSafety::default() };
    assert!(meets_minimum(Resource::Packages, &host, &min));
    assert!(!meets_minimum(Resource::Bootloader, &host, &min));
    assert!(meets_minimum(Resource::PluginData, &host, &min));
}
