//! Test-activate a captured candidate, once per candidate.
//!
//! The reservation and the activation record live in the capture store; this
//! module decides, given what reserving, probing, testing and recording gave,
//! whether the activation stands.

use crate::nix::capture::CaptureError;
use crate::nix::command_runner::{spec_test_cmd, CommandError, CommandOutput, CommandRunner, CommandSpec, CommandView};
use crate::nix::probe::{probe, spec_probe_answer, spec_probe_commands, ProbeError, ProbeResult};
use crate::nix::promotion::{
    adapter_never_switches_running_system, from_command_error, spec_from_command_error, spec_none_switch, PromotionError,
};
use crate::nix::propose::CapturedProposal;
use crate::nix::command_runner::{contains, spec_contains};
use crate::text::{spec_trim, trim};
use vstd::prelude::*;

verus! {

/// The verdict on reserving the activation: a reservation that already
/// exists means the candidate was, or is being, activated; one that could
/// not be made durable is `ReservationNotDurable`. Either way nothing is
/// probed or tested.
pub fn reservation_outcome(reserved: Result<(), CaptureError>) -> (r: Result<(), PromotionError>)
    ensures
        match reserved {
            Ok(()) => r is Ok,
            Err(CaptureError::Conflict) => r matches Err(PromotionError::AlreadyActivated),
            Err(CaptureError::Io) => r matches Err(PromotionError::ReservationNotDurable),
        },
{
    match reserved {
        Ok(()) => Ok(()),
        Err(CaptureError::Conflict) => Err(PromotionError::AlreadyActivated),
        Err(CaptureError::Io) => Err(PromotionError::ReservationNotDurable),
    }
}

/// The base check's verdict, given what probing the host gave: the base has
/// moved unless the probe succeeded and found the capture's base revision.
pub fn base_outcome(probed: Result<ProbeResult, ProbeError>, capture: &CapturedProposal) -> (r: Result<(), PromotionError>)
    ensures
        match probed {
            Ok(p) => if p.base_revision@ == capture.base_revision@ {
                r is Ok
            } else {
                r matches Err(PromotionError::BaseMoved)
            },
            Err(_) => r matches Err(PromotionError::BaseMoved),
        },
{
    match probed {
        Err(_) => Err(PromotionError::BaseMoved),
        Ok(current) => {
            if current.base_revision.same_as(&capture.base_revision) {
                Ok(())
            } else {
                Err(PromotionError::BaseMoved)
            }
        },
    }
}

/// Probe the host and check it is still at the capture's base revision; a
/// failed probe counts as a moved base. The runner is handed the probe's
/// commands and nothing else.
pub fn check_base_unmoved<R: CommandRunner>(runner: &mut R, capture: &CapturedProposal) -> (r: Result<(), PromotionError>)
    ensures
        r matches Err(e) ==> e is BaseMoved,
        exists|p: Result<ProbeResult, ProbeError>| #[trigger] spec_probe_answer(*old(runner), p) && match p {
            Ok(pr) => if pr.base_revision@ == capture.base_revision@ {
                r is Ok
            } else {
                r matches Err(PromotionError::BaseMoved)
            },
            Err(_) => r matches Err(PromotionError::BaseMoved),
        },
        old(runner).spec_keeps_record() ==> exists|k: int|
            1 <= k <= 3 && final(runner).spec_issued() == old(runner).spec_issued() + #[trigger] spec_probe_commands().take(
                k,
            ),
        old(runner).spec_keeps_record() ==> spec_none_switch(final(runner).spec_issued(), old(runner).spec_issued().len() as int),
        forall|c: CommandView, o: Result<CommandOutput, CommandError>|
            #[trigger] final(runner).spec_answers(c, o) == old(runner).spec_answers(c, o),
        final(runner).spec_keeps_record() == old(runner).spec_keeps_record(),
{
    let probed = probe(runner);
    base_outcome(probed, capture)
}

/// The generation a test activation keeps as the boot default: the
/// capture's base generation, empty when it has none.
pub open spec fn spec_base_generation(capture: CapturedProposal) -> Seq<char> {
    match capture.base_revision.generation {
        Some(g) => g@,
        None => Seq::empty(),
    }
}

/// `nixos-rebuild test` of the captured flake, keeping the base generation as
/// the boot default. What the command gave is handed back as it came.
pub fn run_activation_test<R: CommandRunner>(runner: &mut R, capture: &CapturedProposal) -> (r: Result<
    CommandOutput,
    CommandError,
>)
    ensures
        old(runner).spec_answers(spec_test_cmd(capture.flake_ref@, spec_base_generation(*capture)), r),
        old(runner).spec_keeps_record() ==> final(runner).spec_issued() == old(runner).spec_issued().push(
            spec_test_cmd(capture.flake_ref@, spec_base_generation(*capture)),
        ),
        old(runner).spec_keeps_record() ==> spec_none_switch(final(runner).spec_issued(), old(runner).spec_issued().len() as int),
{
    let generation = match &capture.base_revision.generation {
        Some(g) => g.clone(),
        None => String::new(),
    };
    proof {
        adapter_never_switches_running_system(
            Seq::empty(),
            capture.flake_ref@,
            generation@,
            Seq::empty(),
            Seq::empty(),
        );
    }
    runner.run(&CommandSpec::nixos_rebuild_test(capture.flake_ref.as_str(), generation.as_str()))
}

/// The verdict once the test ran and the activation was recorded: a failure
/// to record is reported as an existing activation; a failed test keeps its
/// error; a test whose output does not mention the candidate is a mismatch.
pub open spec fn spec_conclusion(
    test: Result<CommandOutput, CommandError>,
    recorded: Result<(), CaptureError>,
    candidate: Seq<char>,
    r: Result<(), PromotionError>,
) -> bool {
    match recorded {
        Err(_) => r matches Err(PromotionError::AlreadyActivated),
        Ok(()) => match test {
            Err(e) => r matches Err(p) && spec_from_command_error(e, p),
            Ok(o) => if spec_contains(spec_trim(o.stdout@), candidate) {
                r is Ok
            } else {
                r matches Err(PromotionError::ClosureMismatch { expected, actual }) && expected@ == candidate && actual@
                    == spec_trim(o.stdout@)
            },
        },
    }
}

pub fn conclude_activation(
    test: Result<CommandOutput, CommandError>,
    recorded: Result<(), CaptureError>,
    capture: &CapturedProposal,
) -> (r: Result<(), PromotionError>)
    ensures
        spec_conclusion(test, recorded, capture.candidate_closure@, r),
{
    if recorded.is_err() {
        return Err(PromotionError::AlreadyActivated);
    }
    match test {
        Ok(output) => {
            let stdout = trim(output.stdout.as_str());
            if !contains(stdout.as_str(), capture.candidate_closure.as_str()) {
                return Err(PromotionError::ClosureMismatch { expected: capture.candidate_closure.clone(), actual: stdout });
            }
            Ok(())
        },
        Err(err) => Err(from_command_error(err)),
    }
}

} // verus!
verus! {

/// Where a test activation stands once its reservation was attempted.
#[derive(Debug)]
pub enum ActivationStep {
    /// Refused before anything ran; nothing was reserved.
    Refused(PromotionError),
    /// The base moved: the reservation is to be released, and the error stands.
    Release(PromotionError),
    /// The test ran; its activation is to be recorded and the run concluded.
    Tested(Result<CommandOutput, CommandError>),
}

/// Test-activate a candidate once its reservation was attempted: a failed
/// reservation stops everything before a command runs; then the base is
/// probed, and a moved base stops before the test; otherwise
/// `nixos-rebuild test` runs and its answer is handed back.
pub fn activate_reserved<R: CommandRunner>(
    runner: &mut R,
    capture: &CapturedProposal,
    reserved: Result<(), CaptureError>,
) -> (r: ActivationStep)
    ensures
        reserved is Err ==> *final(runner) == *old(runner) && match reserved {
            Err(CaptureError::Conflict) => r matches ActivationStep::Refused(PromotionError::AlreadyActivated),
            _ => r matches ActivationStep::Refused(PromotionError::ReservationNotDurable),
        },
        reserved is Ok ==> !(r is Refused),
        r matches ActivationStep::Release(e) ==> e is BaseMoved,
        reserved is Ok ==> exists|p: Result<ProbeResult, ProbeError>|
            #[trigger] spec_probe_answer(*old(runner), p) && if p matches Ok(pr) && pr.base_revision@
                == capture.base_revision@ {
                r matches ActivationStep::Tested(_)
            } else {
                r matches ActivationStep::Release(PromotionError::BaseMoved)
            },
        r matches ActivationStep::Tested(out) ==> old(runner).spec_answers(
            spec_test_cmd(capture.flake_ref@, spec_base_generation(*capture)),
            out,
        ),
        old(runner).spec_keeps_record() ==> spec_none_switch(final(runner).spec_issued(), old(runner).spec_issued().len() as int),
{
    match reservation_outcome(reserved) {
        Err(e) => {
            return ActivationStep::Refused(e);
        },
        Ok(()) => {},
    }
    let ghost start = *runner;
    match check_base_unmoved(runner, capture) {
        Err(e) => {
            return ActivationStep::Release(e);
        },
        Ok(()) => {},
    }
    let tested = run_activation_test(runner, capture);
    ActivationStep::Tested(tested)
}

} // verus!
