//! Build a captured candidate.

use crate::nix::command_runner::{spec_build_cmd, CommandError, CommandOutput, CommandRunner, CommandSpec};
use crate::nix::promotion::{
    adapter_never_switches_running_system, from_command_error, spec_from_command_error, spec_none_switch, PromotionError,
};
use crate::nix::propose::CapturedProposal;
use vstd::prelude::*;

verus! {

/// The outcome of a step whose command's output is not inspected: success,
/// or the command failure as a promotion failure.
pub open spec fn spec_step_outcome(out: Result<CommandOutput, CommandError>, r: Result<(), PromotionError>) -> bool {
    match out {
        Ok(_) => r is Ok,
        Err(e) => r matches Err(p) && spec_from_command_error(e, p),
    }
}

/// The step's outcome, given the command's.
pub fn step_outcome(out: Result<CommandOutput, CommandError>) -> (r: Result<(), PromotionError>)
    ensures
        spec_step_outcome(out, r),
{
    match out {
        Ok(_) => Ok(()),
        Err(e) => Err(from_command_error(e)),
    }
}

/// `nixos-rebuild build` of the captured flake: the one command it hands
/// the runner, which does not switch the running system.
pub fn build<R: CommandRunner>(runner: &mut R, capture: &CapturedProposal) -> (r: Result<(), PromotionError>)
    ensures
        exists|out: Result<CommandOutput, CommandError>|
            old(runner).spec_answers(spec_build_cmd(capture.flake_ref@), out) && #[trigger] spec_step_outcome(out, r),
        old(runner).spec_keeps_record() ==> final(runner).spec_issued() == old(runner).spec_issued().push(spec_build_cmd(capture.flake_ref@)),
        old(runner).spec_keeps_record() ==> spec_none_switch(final(runner).spec_issued(), old(runner).spec_issued().len() as int),
{
    let out = runner.run(&CommandSpec::nixos_rebuild_build(capture.flake_ref.as_str()));
    proof {
        adapter_never_switches_running_system(Seq::empty(), capture.flake_ref@, Seq::empty(), Seq::empty(), Seq::empty());
    }
    step_outcome(out)
}

} // verus!
