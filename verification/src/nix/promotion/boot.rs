//! Make a pinned closure the boot default without activating it, once the
//! profile is confirmed to point at it.

use crate::nix::command_runner::{
    spec_boot_cmd, spec_profile_link_cmd, CommandError, CommandOutput, CommandRunner, CommandSpec,
};
use crate::nix::promotion::build_step::{spec_step_outcome, step_outcome};
use crate::nix::promotion::pin::{pin_check, spec_pin_ok, spec_pin_refusal, PinRecord};
use crate::nix::promotion::profile::{profile_check, spec_profile_check, spec_profile_matches};
use crate::nix::promotion::{adapter_never_switches_running_system, spec_none_switch, PromotionError};
use crate::nix::propose::CapturedProposal;
use vstd::prelude::*;

verus! {

/// `<candidate>/bin/switch-to-configuration boot`, and only after checks.
/// Without a durable pin of the candidate nothing runs (`PinRequired`, or
/// `PinMismatch` for a pin of another closure). Otherwise the profile target
/// is read first; unless it is the candidate (a failed read keeps its error,
/// any other target is `ProfileMismatch`) the boot default is left alone.
pub fn configure_boot<R: CommandRunner>(runner: &mut R, capture: &CapturedProposal, pin: &Option<PinRecord>) -> (r:
    Result<(), PromotionError>)
    ensures
        !spec_pin_ok(*pin, capture.candidate_closure@) ==> spec_pin_refusal(*pin, capture.candidate_closure@, r)
            && *final(runner) == *old(runner),
        spec_pin_ok(*pin, capture.candidate_closure@) ==> exists|
            back: Result<CommandOutput, CommandError>,
            out: Result<CommandOutput, CommandError>,
        |
            #![trigger old(runner).spec_answers(spec_profile_link_cmd(), back), old(runner).spec_answers(spec_boot_cmd(capture.candidate_closure@), out)]
            {
                &&& old(runner).spec_answers(spec_profile_link_cmd(), back)
                &&& if spec_profile_matches(back, capture.candidate_closure@) {
                    &&& old(runner).spec_answers(spec_boot_cmd(capture.candidate_closure@), out)
                    &&& spec_step_outcome(out, r)
                    &&& old(runner).spec_keeps_record() ==> final(runner).spec_issued() == old(
                        runner,
                    ).spec_issued().push(spec_profile_link_cmd()).push(spec_boot_cmd(capture.candidate_closure@))
                } else {
                    &&& spec_profile_check(back, capture.candidate_closure@, r)
                    &&& old(runner).spec_keeps_record() ==> final(runner).spec_issued() == old(
                        runner,
                    ).spec_issued().push(spec_profile_link_cmd())
                }
            },
        old(runner).spec_keeps_record() ==> spec_none_switch(final(runner).spec_issued(), old(runner).spec_issued().len() as int),
{
    let closure = capture.candidate_closure.as_str();
    match pin_check(pin, closure) {
        Err(e) => {
            return Err(e);
        },
        Ok(()) => {},
    }
    proof {
        adapter_never_switches_running_system(Seq::empty(), Seq::empty(), Seq::empty(), closure@, Seq::empty());
    }
    let back = runner.run(&CommandSpec::read_profile_target());
    let ghost back_seen = back;
    match profile_check(back, closure) {
        Err(e) => {
            proof {
                let out: Result<CommandOutput, CommandError> = Err(CommandError::NotRegistered);
                let _ = old(runner).spec_answers(spec_boot_cmd(closure@), out);
                assert(old(runner).spec_answers(spec_profile_link_cmd(), back_seen));
            }
            return Err(e);
        },
        Ok(()) => {},
    }
    let out = runner.run(&CommandSpec::switch_to_configuration_boot(closure));
    step_outcome(out)
}

} // verus!
