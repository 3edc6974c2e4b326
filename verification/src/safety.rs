//! Per-resource safety comparison (`docs/effects.md` §2).
//!
//! The order of coverage values lives here, next to the code that refuses.
//! The refusal rule is uniform for D and M: a step on a resource whose
//! reported safety is below the manifest's minimum, or at `none`, is refused.
//! No manifest can lower the floor to `none`.

use crate::protocol::{DataSafety, HostSafety, SafetyVector, ServiceStateSafety};
use vstd::prelude::*;

verus! {

/// Resources that carry rollback coverage.
#[derive(Debug, Clone, Copy, PartialEq, Eq, Hash, Structural)]
pub enum Resource {
    RootConfig,
    Packages,
    Bootloader,
    Kernel,
    ServiceState,
    PluginData,
    DesktopData,
    HomeData,
    ExternalEffects,
}

/// Rank of a host coverage value: `none` < snapshot-reboot < snapshot-live < generation.
pub open spec fn spec_host_rank(value: HostSafety) -> u8 {
    match value {
        HostSafety::Absent => 0,
        HostSafety::SnapshotReboot => 1,
        HostSafety::SnapshotLive => 2,
        HostSafety::Generation => 3,
    }
}

/// Rank of a unit-state coverage value.
pub open spec fn spec_service_rank(value: ServiceStateSafety) -> u8 {
    match value {
        ServiceStateSafety::Absent => 0,
        ServiceStateSafety::DesiredState => 1,
    }
}

/// Rank of a data coverage value.
pub open spec fn spec_data_rank(value: DataSafety) -> u8 {
    match value {
        DataSafety::Absent => 0,
        DataSafety::DedicatedSnapshot => 1,
    }
}

fn host_rank(value: HostSafety) -> (r: u8)
    ensures
        r == spec_host_rank(value),
{
    match value {
        HostSafety::Absent => 0,
        HostSafety::SnapshotReboot => 1,
        HostSafety::SnapshotLive => 2,
        HostSafety::Generation => 3,
    }
}

fn service_rank(value: ServiceStateSafety) -> (r: u8)
    ensures
        r == spec_service_rank(value),
{
    match value {
        ServiceStateSafety::Absent => 0,
        ServiceStateSafety::DesiredState => 1,
    }
}

fn data_rank(value: DataSafety) -> (r: u8)
    ensures
        r == spec_data_rank(value),
{
    match value {
        DataSafety::Absent => 0,
        DataSafety::DedicatedSnapshot => 1,
    }
}

/// A manifest's per-resource minimums (`risk.min_safety`).
#[derive(Debug, Clone, Copy, PartialEq, Eq, Structural)]
pub struct MinSafety {
    pub root_config: Option<HostSafety>,
    pub packages: Option<HostSafety>,
    pub bootloader: Option<HostSafety>,
    pub kernel: Option<HostSafety>,
    pub service_state: Option<ServiceStateSafety>,
    pub plugin_data: Option<DataSafety>,
    pub desktop_data: Option<DataSafety>,
    pub home_data: Option<DataSafety>,
}

/// The minimums of a manifest that declares none.
pub open spec fn spec_no_minimums() -> MinSafety {
    MinSafety {
        root_config: None,
        packages: None,
        bootloader: None,
        kernel: None,
        service_state: None,
        plugin_data: None,
        desktop_data: None,
        home_data: None,
    }
}

impl Default for MinSafety {
    fn default() -> (m: MinSafety)
        ensures
            m == spec_no_minimums(),
    {
        MinSafety {
            root_config: None,
            packages: None,
            bootloader: None,
            kernel: None,
            service_state: None,
            plugin_data: None,
            desktop_data: None,
            home_data: None,
        }
    }
}

/// Host coverage meets a host minimum: never `none`, and at least the minimum.
pub open spec fn spec_host_meets(actual: HostSafety, minimum: Option<HostSafety>) -> bool {
    spec_host_rank(actual) > 0 && match minimum {
        Some(m) => spec_host_rank(actual) >= spec_host_rank(m),
        None => true,
    }
}

/// Unit-state coverage meets its minimum: never `none`, and at least the minimum.
pub open spec fn spec_service_meets(actual: ServiceStateSafety, minimum: Option<ServiceStateSafety>) -> bool {
    spec_service_rank(actual) > 0 && match minimum {
        Some(m) => spec_service_rank(actual) >= spec_service_rank(m),
        None => true,
    }
}

/// Data coverage meets its minimum: never `none`, and at least the minimum.
pub open spec fn spec_data_meets(actual: DataSafety, minimum: Option<DataSafety>) -> bool {
    spec_data_rank(actual) > 0 && match minimum {
        Some(m) => spec_data_rank(actual) >= spec_data_rank(m),
        None => true,
    }
}

/// Whether the host's coverage of `resource` satisfies the manifest.
pub open spec fn spec_meets_minimum(resource: Resource, host: SafetyVector, min: MinSafety) -> bool {
    match resource {
        Resource::RootConfig => spec_host_meets(host.root_config, min.root_config),
        Resource::Packages => spec_host_meets(host.packages, min.packages),
        Resource::Bootloader => spec_host_meets(host.bootloader, min.bootloader),
        Resource::Kernel => spec_host_meets(host.kernel, min.kernel),
        Resource::ServiceState => spec_service_meets(host.service_state, min.service_state),
        Resource::PluginData => spec_data_meets(host.plugin_data, min.plugin_data),
        Resource::DesktopData => spec_data_meets(host.desktop_data, min.desktop_data),
        Resource::HomeData => spec_data_meets(host.home_data, min.home_data),
        Resource::ExternalEffects => false,
    }
}

fn host_meets(actual: HostSafety, minimum: Option<HostSafety>) -> (r: bool)
    ensures
        r == spec_host_meets(actual, minimum),
{
    let actual = host_rank(actual);
    let floor = match minimum {
        Some(m) => host_rank(m),
        None => 0,
    };
    actual > 0 && actual >= floor
}

fn service_meets(actual: ServiceStateSafety, minimum: Option<ServiceStateSafety>) -> (r: bool)
    ensures
        r == spec_service_meets(actual, minimum),
{
    let actual = service_rank(actual);
    let floor = match minimum {
        Some(m) => service_rank(m),
        None => 0,
    };
    actual > 0 && actual >= floor
}

fn data_meets(actual: DataSafety, minimum: Option<DataSafety>) -> (r: bool)
    ensures
        r == spec_data_meets(actual, minimum),
{
    let actual = data_rank(actual);
    let floor = match minimum {
        Some(m) => data_rank(m),
        None => 0,
    };
    actual > 0 && actual >= floor
}

/// Whether the host's reported coverage satisfies the manifest for a resource.
///
/// A resource at `none` fails whatever the manifest asks for, and a resource
/// the manifest does not mention still fails at `none`. External effects are
/// never a mutable target.
pub fn meets_minimum(resource: Resource, host: &SafetyVector, min: &MinSafety) -> (r: bool)
    ensures
        r == spec_meets_minimum(resource, *host, *min),
{
    match resource {
        Resource::RootConfig => host_meets(host.root_config, min.root_config),
        Resource::Packages => host_meets(host.packages, min.packages),
        Resource::Bootloader => host_meets(host.bootloader, min.bootloader),
        Resource::Kernel => host_meets(host.kernel, min.kernel),
        Resource::ServiceState => service_meets(host.service_state, min.service_state),
        Resource::PluginData => data_meets(host.plugin_data, min.plugin_data),
        Resource::DesktopData => data_meets(host.desktop_data, min.desktop_data),
        Resource::HomeData => data_meets(host.home_data, min.home_data),
        Resource::ExternalEffects => false,
    }
}

/// A resource reported at `none` never meets any minimum, whatever the
/// manifest declares: silence is not consent to mutate something
/// unrecoverable.
pub proof fn none_never_meets(resource: Resource, host: SafetyVector, min: MinSafety)
    requires
        match resource {
            Resource::RootConfig => host.root_config == HostSafety::Absent,
            Resource::Packages => host.packages == HostSafety::Absent,
            Resource::Bootloader => host.bootloader == HostSafety::Absent,
            Resource::Kernel => host.kernel == HostSafety::Absent,
            Resource::ServiceState => host.service_state == ServiceStateSafety::Absent,
            Resource::PluginData => host.plugin_data == DataSafety::Absent,
            Resource::DesktopData => host.desktop_data == DataSafety::Absent,
            Resource::HomeData => host.home_data == DataSafety::Absent,
            Resource::ExternalEffects => true,
        },
    ensures
        !spec_meets_minimum(resource, host, min),
{
}

/// Raising a host's coverage of a resource never turns a pass into a refusal:
/// the comparison is monotone in the reported coverage.
pub proof fn host_meets_is_monotone(a: HostSafety, b: HostSafety, minimum: Option<HostSafety>)
    requires
        spec_host_rank(a) <= spec_host_rank(b),
        spec_host_meets(a, minimum),
    ensures
        spec_host_meets(b, minimum),
{
}

/// Whether host coverage `x` is at least `m` in the documented order
/// `none` < snapshot-reboot < snapshot-live < generation, written out value
/// by value.
pub open spec fn spec_host_at_least(x: HostSafety, m: HostSafety) -> bool {
    match m {
        HostSafety::Absent => true,
        HostSafety::SnapshotReboot => x == HostSafety::SnapshotReboot || x == HostSafety::SnapshotLive || x
            == HostSafety::Generation,
        HostSafety::SnapshotLive => x == HostSafety::SnapshotLive || x == HostSafety::Generation,
        HostSafety::Generation => x == HostSafety::Generation,
    }
}

/// What a host minimum demands of the reported coverage: never `none`, and
/// when a minimum is declared, at least that minimum in the documented order.
pub open spec fn spec_host_satisfies(x: HostSafety, minimum: Option<HostSafety>) -> bool {
    x != HostSafety::Absent && match minimum {
        Some(m) => spec_host_at_least(x, m),
        None => true,
    }
}

/// The host resources (root configuration, packages, boot loader, kernel)
/// meet their minimum exactly as the documented coverage order says: a host
/// at snapshot-reboot fails a snapshot-live or generation minimum,
/// snapshot-live fails a generation minimum and passes a snapshot-reboot
/// one, and `none` fails everything.
pub proof fn host_minimum_follows_coverage_order(host: SafetyVector, min: MinSafety)
    ensures
        spec_meets_minimum(Resource::RootConfig, host, min) == spec_host_satisfies(host.root_config, min.root_config),
        spec_meets_minimum(Resource::Packages, host, min) == spec_host_satisfies(host.packages, min.packages),
        spec_meets_minimum(Resource::Bootloader, host, min) == spec_host_satisfies(host.bootloader, min.bootloader),
        spec_meets_minimum(Resource::Kernel, host, min) == spec_host_satisfies(host.kernel, min.kernel),
{
}

} // verus!
