//! Flush the profile and boot boundaries to disk.

use crate::nix::command_runner::{spec_sync_cmd, CommandError, CommandOutput, CommandRunner, CommandSpec};
use crate::nix::promotion::build_step::{spec_step_outcome, step_outcome};
use crate::nix::promotion::{adapter_never_switches_running_system, spec_none_switch, PromotionError};
use vstd::prelude::*;

verus! {

/// `sync` of the system profile and `/boot`.
pub fn flush_boundaries<R: CommandRunner>(runner: &mut R) -> (r: Result<(), PromotionError>)
    ensures
        exists|out: Result<CommandOutput, CommandError>|
            old(runner).spec_answers(spec_sync_cmd(), out) && #[trigger] spec_step_outcome(out, r),
        old(runner).spec_keeps_record() ==> final(runner).spec_issued() == old(runner).spec_issued().push(spec_sync_cmd()),
        old(runner).spec_keeps_record() ==> spec_none_switch(final(runner).spec_issued(), old(runner).spec_issued().len() as int),
{
    let out = runner.run(&CommandSpec::sync_profile_boot_boundaries());
    proof {
        adapter_never_switches_running_system(Seq::empty(), Seq::empty(), Seq::empty(), Seq::empty(), Seq::empty());
    }
    step_outcome(out)
}

} // verus!
