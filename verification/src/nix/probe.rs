//! The Nix adapter's host probe and safety vector.
//!
//! The probe reads the current system generation, the tracked `/etc` git
//! head and the configuration digest. Missing any of them, the probe refuses
//! rather than report a host it did not observe.

use crate::nix::command_runner::{
    spec_config_digest_cmd, spec_etc_git_head_cmd, spec_profile_link_cmd, CommandError, CommandOutput, CommandRunner,
    CommandSpec, CommandView,
};
use crate::nix::promotion::{adapter_never_switches_running_system, spec_none_switch};
use crate::protocol::{
    AdapterInfo, BaseRevision, DataSafety, Digest, ExternalEffectsSafety, HostSafety, RecoveryRequires,
    SafetySource, SafetyVector, ServiceStateSafety,
};
use crate::storage::files::{parse_u64, spec_parse_u64};
use crate::text::{spec_trim, trim};
use vstd::prelude::*;
use vstd::utf8::encode_utf8;

verus! {

/// Probe outcome: the adapter's identity, its safety vector and the base
/// revision the host is at.
#[derive(Debug, Clone)]
pub struct ProbeResult {
    pub adapter: AdapterInfo,
    pub safety: SafetyVector,
    pub safety_source: SafetySource,
    pub base_revision: BaseRevision,
}

/// The probe refused because an observation is missing.
#[derive(Debug, Clone, Copy, PartialEq, Eq, Structural)]
pub enum ProbeError {
    IncompleteObservation,
}

/// What a resolved Nix host can roll back: configuration and packages by
/// generation, nothing else; recovery needs a remote reboot.
pub open spec fn spec_nix_safety() -> SafetyVector {
    SafetyVector {
        root_config: HostSafety::Generation,
        packages: HostSafety::Generation,
        bootloader: HostSafety::Absent,
        kernel: HostSafety::Absent,
        service_state: ServiceStateSafety::Absent,
        plugin_data: DataSafety::Absent,
        desktop_data: DataSafety::Absent,
        home_data: DataSafety::Absent,
        external_effects: ExternalEffectsSafety::Absent,
        recovery_requires: RecoveryRequires::RemoteReboot,
    }
}

pub fn nix_safety() -> (v: SafetyVector)
    ensures
        v == spec_nix_safety(),
{
    SafetyVector {
        root_config: HostSafety::Generation,
        packages: HostSafety::Generation,
        bootloader: HostSafety::Absent,
        kernel: HostSafety::Absent,
        service_state: ServiceStateSafety::Absent,
        plugin_data: DataSafety::Absent,
        desktop_data: DataSafety::Absent,
        home_data: DataSafety::Absent,
        external_effects: ExternalEffectsSafety::Absent,
        recovery_requires: RecoveryRequires::RemoteReboot,
    }
}

/// The value of an ASCII hexadecimal digit byte, either case.
pub open spec fn spec_hex_byte(b: u8) -> Option<u8> {
    if 48 <= b && b <= 57 {
        Some((b - 48) as u8)
    } else if 97 <= b && b <= 102 {
        Some((b - 87) as u8)
    } else if 65 <= b && b <= 70 {
        Some((b - 55) as u8)
    } else {
        None
    }
}

/// The hexadecimal digits of value 0 to 15, lowercase and uppercase.
pub open spec fn spec_digit_chars(upper: bool) -> Seq<char> {
    if upper {
        "0123456789ABCDEF"@
    } else {
        "0123456789abcdef"@
    }
}

/// Hex digits read as base 16, as `u8::from_str_radix(_, 16)` reads them:
/// the digit of value `v` in either case reads as `v`, and a byte that reads
/// as some value is the digit of that value in one of the two cases.
pub proof fn hex_digits_read_as_base_sixteen()
    ensures
        forall|v: u8, upper: bool|
            v < 16 ==> spec_hex_byte(#[trigger] (spec_digit_chars(upper)[v as int] as u8)) == Some(v),
        forall|b: u8| #[trigger]
            spec_hex_byte(b) matches Some(v) ==> v < 16 && (b == (spec_digit_chars(false)[v as int] as u8) || b
                == (spec_digit_chars(true)[v as int] as u8)),
{
    reveal_strlit("0123456789ABCDEF");
    reveal_strlit("0123456789abcdef");
}

/// Any 64 hex digit bytes, of either case, decode pair by pair into 32
/// bytes, each the high digit's value times 16 plus the low digit's.
pub proof fn hex_pairs_decode_every_digit_text(b: Seq<u8>)
    requires
        b.len() == 64,
        forall|i: int| 0 <= i < 64 ==> (#[trigger] spec_hex_byte(b[i])) is Some,
    ensures
        spec_decode_pairs(b) == Some(
            Seq::new(32, |i: int| (spec_hex_byte(b[2 * i]).unwrap() * 16 + spec_hex_byte(b[2 * i + 1]).unwrap()) as u8),
        ),
{
    assert forall|i: int| 0 <= i < 32 implies (#[trigger] spec_byte_pair(b[2 * i], b[2 * i + 1])) == Some(
        (spec_hex_byte(b[2 * i]).unwrap() * 16 + spec_hex_byte(b[2 * i + 1]).unwrap()) as u8,
    ) by {
        assert(spec_hex_byte(b[2 * i]) is Some);
        assert(spec_hex_byte(b[2 * i + 1]) is Some);
        assert(b[2 * i] != 43u8);
    }
    assert(Seq::new(32, |i: int| spec_byte_pair(b[2 * i], b[2 * i + 1]).unwrap()) =~= Seq::new(
        32,
        |i: int| (spec_hex_byte(b[2 * i]).unwrap() * 16 + spec_hex_byte(b[2 * i + 1]).unwrap()) as u8,
    ));
}

fn hex_byte(b: u8) -> (r: Option<u8>)
    ensures
        r == spec_hex_byte(b),
        r matches Some(v) ==> v < 16,
{
    if 48 <= b && b <= 57 {
        Some(b - 48)
    } else if 97 <= b && b <= 102 {
        Some(b - 87)
    } else if 65 <= b && b <= 70 {
        Some(b - 55)
    } else {
        None
    }
}

/// One byte from two text bytes, as `u8::from_str_radix(pair, 16)` reads
/// them: two digits, or `+` and one digit.
pub open spec fn spec_byte_pair(hi: u8, lo: u8) -> Option<u8> {
    if hi == 43 {
        spec_hex_byte(lo)
    } else {
        match (spec_hex_byte(hi), spec_hex_byte(lo)) {
            (Some(a), Some(b)) => Some((a * 16 + b) as u8),
            _ => None,
        }
    }
}

/// 64 text bytes read two per byte.
pub open spec fn spec_decode_pairs(b: Seq<u8>) -> Option<Seq<u8>> {
    if b.len() != 64 {
        None
    } else if forall|i: int| 0 <= i < 32 ==> (#[trigger] spec_byte_pair(b[2 * i], b[2 * i + 1])).is_some() {
        Some(Seq::new(32, |i: int| spec_byte_pair(b[2 * i], b[2 * i + 1]).unwrap()))
    } else {
        None
    }
}

/// The first 64 bytes of `all`, or all of it when shorter.
pub open spec fn spec_cut64(all: Seq<u8>) -> Seq<u8> {
    if all.len() > 64 {
        all.take(64)
    } else {
        all
    }
}

/// The longest configuration hash text a probe reads.
pub const MAX_DIGEST_TEXT: usize = 255;

/// The digest a probe reads from the configuration hash text: its UTF-8
/// bytes, trimmed, cut to 64 and read two per byte. A text of 256 bytes or
/// more is overlong and has no digest.
pub open spec fn spec_hex_to_digest(text: Seq<char>) -> Option<Seq<u8>> {
    if encode_utf8(spec_trim(text)).len() > MAX_DIGEST_TEXT {
        None
    } else {
        spec_decode_pairs(spec_cut64(encode_utf8(spec_trim(text))))
    }
}

/// Decode the configuration hash text into a digest.
pub fn hex_to_digest(text: &str) -> (r: Result<Digest, ProbeError>)
    ensures
        match spec_hex_to_digest(text@) {
            Some(bytes) => r matches Ok(d) && d@ == bytes,
            None => r == Err::<Digest, ProbeError>(ProbeError::IncompleteObservation),
        },
{
    let t = trim(text);
    let all = t.as_str().as_bytes();
    assert(all@ == encode_utf8(spec_trim(text@)));
    let ghost bv = spec_cut64(all@);
    if all.len() < 64 || all.len() > MAX_DIGEST_TEXT {
        return Err(ProbeError::IncompleteObservation);
    }
    let mut out = [0u8; 32];
    let mut i: usize = 0;
    while i < 32
        invariant
            all@ == encode_utf8(spec_trim(text@)),
            all@.len() >= 64,
            all@.len() <= MAX_DIGEST_TEXT,
            bv == spec_cut64(all@),
            bv.len() == 64,
            i <= 32,
            forall|j: int| 0 <= j < i ==> (#[trigger] spec_byte_pair(bv[2 * j], bv[2 * j + 1])) == Some(out@[j]),
        decreases 32 - i,
    {
        let hi = all[2 * i];
        let lo = all[2 * i + 1];
        assert(bv[2 * i as int] == hi && bv[2 * i + 1] == lo);
        let v = if hi == 43 {
            match hex_byte(lo) {
                Some(v) => v,
                None => {
                    assert(spec_byte_pair(bv[2 * i as int], bv[2 * i + 1]).is_none());
                    assert(!(forall|j: int|
                        0 <= j < 32 ==> (#[trigger] spec_byte_pair(bv[2 * j], bv[2 * j + 1])).is_some()));
                    assert(spec_decode_pairs(bv).is_none());
                    return Err(ProbeError::IncompleteObservation);
                },
            }
        } else {
            match (hex_byte(hi), hex_byte(lo)) {
                (Some(a), Some(b)) => a * 16 + b,
                _ => {
                    assert(spec_byte_pair(bv[2 * i as int], bv[2 * i + 1]).is_none());
                    assert(!(forall|j: int|
                        0 <= j < 32 ==> (#[trigger] spec_byte_pair(bv[2 * j], bv[2 * j + 1])).is_some()));
                    assert(spec_decode_pairs(bv).is_none());
                    return Err(ProbeError::IncompleteObservation);
                },
            }
        };
        out[i] = v;
        i = i + 1;
    }
    assert(Seq::new(32, |j: int| spec_byte_pair(bv[2 * j], bv[2 * j + 1]).unwrap()) =~= out@);
    Ok(Digest::from_sha256_bytes(out))
}

/// The trimmed standard output of a successful command.
pub open spec fn spec_observed(out: Result<CommandOutput, CommandError>) -> Option<Seq<char>> {
    match out {
        Ok(o) => Some(spec_trim(o.stdout@)),
        Err(_) => None,
    }
}

/// An observation: the trimmed standard output of a successful command; a
/// failed command is an incomplete observation.
pub fn observed(out: Result<CommandOutput, CommandError>) -> (r: Result<String, ProbeError>)
    ensures
        match spec_observed(out) {
            Some(t) => r matches Ok(s) && s@ == t,
            None => r == Err::<String, ProbeError>(ProbeError::IncompleteObservation),
        },
{
    match out {
        Ok(o) => Ok(trim(o.stdout.as_str())),
        Err(_) => Err(ProbeError::IncompleteObservation),
    }
}

/// The probe result for an observed generation, `/etc` head and digest.
pub open spec fn spec_probe_result(p: ProbeResult, generation: Seq<char>, etc_git: Seq<char>, digest: Seq<u8>) -> bool {
    &&& p.adapter.kind@ == "nix"@
    &&& p.adapter.resolved
    &&& p.adapter.available_at_gate == 1
    &&& p.adapter.generations == spec_parse_u64(generation)
    &&& p.adapter.snapshots.is_none()
    &&& p.safety == spec_nix_safety()
    &&& p.safety_source == SafetySource::AdapterProbe
    &&& p.base_revision@.generation == Some(generation)
    &&& p.base_revision@.etc_git_commit == etc_git
    &&& p.base_revision@.config_digest == digest
}

/// Assemble the probe result from what was observed.
pub fn probe_result(generation: String, etc_git: String, digest: Digest) -> (p: ProbeResult)
    ensures
        spec_probe_result(p, generation@, etc_git@, digest@),
{
    let generations = parse_u64(generation.as_str());
    ProbeResult {
        adapter: AdapterInfo {
            kind: "nix".to_owned(),
            resolved: true,
            available_at_gate: 1,
            generations,
            snapshots: None,
        },
        safety: nix_safety(),
        safety_source: SafetySource::AdapterProbe,
        base_revision: BaseRevision { generation: Some(generation), etc_git_commit: etc_git, config_digest: digest },
    }
}

/// What a probe observes, given what its three commands gave: the trimmed
/// current generation (which must be non-empty), the trimmed `/etc` head and
/// the configuration digest decoded from its trimmed text. A later command
/// is consulted only when every earlier observation succeeded.
pub open spec fn spec_probe_from(
    generation: Result<CommandOutput, CommandError>,
    etc_git: Result<CommandOutput, CommandError>,
    digest: Result<CommandOutput, CommandError>,
) -> Option<(Seq<char>, Seq<char>, Seq<u8>)> {
    match spec_observed(generation) {
        None => None,
        Some(g) => if g.len() == 0 {
            None
        } else {
            match spec_observed(etc_git) {
                None => None,
                Some(e) => match spec_observed(digest) {
                    None => None,
                    Some(t) => match spec_hex_to_digest(t) {
                        None => None,
                        Some(bytes) => Some((g, e, bytes)),
                    },
                },
            }
        },
    }
}

/// The probe's verdict, given what its three commands gave.
pub fn probe_from(
    generation: Result<CommandOutput, CommandError>,
    etc_git: Result<CommandOutput, CommandError>,
    digest: Result<CommandOutput, CommandError>,
) -> (r: Result<ProbeResult, ProbeError>)
    ensures
        match spec_probe_from(generation, etc_git, digest) {
            Some((g, e, bytes)) => r matches Ok(p) && spec_probe_result(p, g, e, bytes),
            None => r == Err::<ProbeResult, ProbeError>(ProbeError::IncompleteObservation),
        },
{
    let generation = observed(generation)?;
    if generation.unicode_len() == 0 {
        return Err(ProbeError::IncompleteObservation);
    }
    let etc_git = observed(etc_git)?;
    let digest_text = observed(digest)?;
    let digest = hex_to_digest(digest_text.as_str())?;
    Ok(probe_result(generation, etc_git, digest))
}

/// The probe's three commands, in the order it runs them.
pub open spec fn spec_probe_commands() -> Seq<CommandView> {
    seq![spec_profile_link_cmd(), spec_etc_git_head_cmd(), spec_config_digest_cmd()]
}

/// How many of its commands a probe runs, given what the first two gave: the
/// `/etc` head is read only after a non-empty generation, and the digest
/// only after the head.
pub open spec fn spec_probe_steps(
    generation: Result<CommandOutput, CommandError>,
    etc_git: Result<CommandOutput, CommandError>,
) -> int {
    match spec_observed(generation) {
        Some(g) => if g.len() == 0 {
            1
        } else if etc_git is Err {
            2
        } else {
            3
        },
        None => 1,
    }
}

/// The verdict a probe gives on the answers `g`, `e`, `d` to its three
/// commands: the answers a runner may give to those it runs, and the result
/// [`probe_from`] gives on them.
pub open spec fn spec_probe_on<R: CommandRunner>(
    runner: R,
    g: Result<CommandOutput, CommandError>,
    e: Result<CommandOutput, CommandError>,
    d: Result<CommandOutput, CommandError>,
    r: Result<ProbeResult, ProbeError>,
) -> bool {
    &&& runner.spec_answers(spec_profile_link_cmd(), g)
    &&& spec_probe_steps(g, e) >= 2 ==> runner.spec_answers(spec_etc_git_head_cmd(), e)
    &&& spec_probe_steps(g, e) >= 3 ==> runner.spec_answers(spec_config_digest_cmd(), d)
    &&& match spec_probe_from(g, e, d) {
        Some((gen, git, bytes)) => r matches Ok(p) && spec_probe_result(p, gen, git, bytes),
        None => r == Err::<ProbeResult, ProbeError>(ProbeError::IncompleteObservation),
    }
}

/// Whether `r` is a result a probe may give through `runner`: [`probe_from`]
/// on answers the runner may give to the commands the probe runs.
pub open spec fn spec_probe_answer<R: CommandRunner>(runner: R, r: Result<ProbeResult, ProbeError>) -> bool {
    exists|g: Result<CommandOutput, CommandError>, e: Result<CommandOutput, CommandError>, d: Result<
        CommandOutput,
        CommandError,
    >| #[trigger] spec_probe_on(runner, g, e, d, r)
}

/// Probe the host through the runner: the current generation, then the
/// `/etc` head, then the configuration digest, each run only when every
/// earlier observation succeeded. The verdict is [`probe_from`]'s on what the
/// runner answered, and a runner that keeps a record was handed exactly those
/// commands, none of which switches the running system.
pub fn probe<R: CommandRunner>(runner: &mut R) -> (r: Result<ProbeResult, ProbeError>)
    ensures
        spec_probe_answer(*old(runner), r),
        exists|g: Result<CommandOutput, CommandError>, e: Result<CommandOutput, CommandError>, d: Result<
            CommandOutput,
            CommandError,
        >|
            {
                &&& #[trigger] spec_probe_on(*old(runner), g, e, d, r)
                &&& old(runner).spec_keeps_record() ==> final(runner).spec_issued() == old(runner).spec_issued()
                    + spec_probe_commands().take(spec_probe_steps(g, e))
            },
        old(runner).spec_keeps_record() ==> exists|k: int|
            1 <= k <= 3 && final(runner).spec_issued() == old(runner).spec_issued() + #[trigger] spec_probe_commands().take(
                k,
            ),
        old(runner).spec_keeps_record() ==> spec_none_switch(final(runner).spec_issued(), old(runner).spec_issued().len() as int),
        forall|c: CommandView, o: Result<CommandOutput, CommandError>|
            #[trigger] final(runner).spec_answers(c, o) == old(runner).spec_answers(c, o),
        final(runner).spec_keeps_record() == old(runner).spec_keeps_record(),
{
    let ghost before = runner.spec_issued();
    let ghost start = *runner;
    proof {
        adapter_never_switches_running_system(Seq::empty(), Seq::empty(), Seq::empty(), Seq::empty(), Seq::empty());
    }
    let generation = runner.run(&CommandSpec::nix_current_generation());
    let stop = match &generation {
        Ok(o) => trim(o.stdout.as_str()).unicode_len() == 0,
        Err(_) => true,
    };
    if stop {
        let ghost none: Result<CommandOutput, CommandError> = Err(CommandError::NotRegistered);
        let r = probe_from(generation, Err(CommandError::NotRegistered), Err(CommandError::NotRegistered));
        proof {
            assert(spec_probe_on(start, generation, none, none, r));
            if start.spec_keeps_record() {
                assert(runner.spec_issued() =~= before + spec_probe_commands().take(spec_probe_steps(generation, none)));
            }
        }
        return r;
    }
    let etc_git = runner.run(&CommandSpec::etc_git_head());
    if etc_git.is_err() {
        let ghost none: Result<CommandOutput, CommandError> = Err(CommandError::NotRegistered);
        let ghost e_seen = etc_git;
        let r = probe_from(generation, etc_git, Err(CommandError::NotRegistered));
        proof {
            assert(spec_probe_on(start, generation, e_seen, none, r));
            if start.spec_keeps_record() {
                assert(runner.spec_issued() =~= before + spec_probe_commands().take(spec_probe_steps(generation, e_seen)));
            }
        }
        return r;
    }
    let digest = runner.run(&CommandSpec::config_digest());
    let ghost e_seen = etc_git;
    let ghost d_seen = digest;
    let r = probe_from(generation, etc_git, digest);
    proof {
        assert(spec_probe_on(start, generation, e_seen, d_seen, r));
        if start.spec_keeps_record() {
            assert(runner.spec_issued() =~= before + spec_probe_commands().take(spec_probe_steps(generation, e_seen)));
        }
    }
    r
}

} // verus!
