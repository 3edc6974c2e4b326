//! Point the system profile at a pinned closure, and confirm it points there.

use crate::nix::command_runner::{
    spec_profile_link_cmd, spec_profile_set_cmd, CommandError, CommandOutput, CommandRunner, CommandSpec,
};
use crate::nix::promotion::pin::{pin_check, spec_pin_ok, spec_pin_refusal, PinRecord};
use crate::nix::promotion::{
    adapter_never_switches_running_system, from_command_error, spec_from_command_error, spec_none_switch, PromotionError,
};
use crate::nix::propose::CapturedProposal;
use crate::text::{spec_trim, trim};
use vstd::prelude::*;

verus! {

/// Whether reading the profile target found the closure: the trimmed output
/// is exactly it.
pub open spec fn spec_profile_matches(out: Result<CommandOutput, CommandError>, closure: Seq<char>) -> bool {
    out matches Ok(o) && spec_trim(o.stdout@) == closure
}

/// The verdict on reading the profile target: a failed read keeps its error,
/// a target other than the closure (an empty one included) is
/// `ProfileMismatch`.
pub open spec fn spec_profile_check(out: Result<CommandOutput, CommandError>, closure: Seq<char>, r: Result<
    (),
    PromotionError,
>) -> bool {
    match out {
        Err(e) => r matches Err(p) && spec_from_command_error(e, p),
        Ok(o) => if spec_trim(o.stdout@) == closure {
            r is Ok
        } else {
            r matches Err(PromotionError::ProfileMismatch { expected, actual }) && expected@ == closure && actual@
                == spec_trim(o.stdout@)
        },
    }
}

/// Judge a read of the profile target against the closure.
pub fn profile_check(out: Result<CommandOutput, CommandError>, closure: &str) -> (r: Result<(), PromotionError>)
    ensures
        spec_profile_check(out, closure@, r),
        r is Ok <==> spec_profile_matches(out, closure@),
{
    match out {
        Err(e) => Err(from_command_error(e)),
        Ok(o) => {
            let actual = trim(o.stdout.as_str());
            let expected = closure.to_owned();
            if actual == expected {
                Ok(())
            } else {
                Err(PromotionError::ProfileMismatch { expected, actual })
            }
        },
    }
}

/// Advance the system profile to the captured candidate. Without a durable
/// pin of that candidate nothing runs (`PinRequired`, or `PinMismatch` for a
/// pin of another closure). Otherwise `nix-env --set` runs, and then the
/// profile target is read back: it must be the candidate.
pub fn advance_profile<R: CommandRunner>(runner: &mut R, capture: &CapturedProposal, pin: &Option<PinRecord>) -> (r:
    Result<(), PromotionError>)
    ensures
        !spec_pin_ok(*pin, capture.candidate_closure@) ==> spec_pin_refusal(*pin, capture.candidate_closure@, r)
            && *final(runner) == *old(runner),
        spec_pin_ok(*pin, capture.candidate_closure@) ==> exists|
            set: Result<CommandOutput, CommandError>,
            back: Result<CommandOutput, CommandError>,
        |
            #![trigger old(runner).spec_answers(spec_profile_set_cmd(capture.candidate_closure@), set), old(runner).spec_answers(spec_profile_link_cmd(), back)]
            {
                &&& old(runner).spec_answers(spec_profile_set_cmd(capture.candidate_closure@), set)
                &&& match set {
                    Err(e) => {
                        &&& r matches Err(p) && spec_from_command_error(e, p)
                        &&& old(runner).spec_keeps_record() ==> final(runner).spec_issued() == old(
                            runner,
                        ).spec_issued().push(spec_profile_set_cmd(capture.candidate_closure@))
                    },
                    Ok(_) => {
                        &&& old(runner).spec_answers(spec_profile_link_cmd(), back)
                        &&& spec_profile_check(back, capture.candidate_closure@, r)
                        &&& old(runner).spec_keeps_record() ==> final(runner).spec_issued() == old(
                            runner,
                        ).spec_issued().push(spec_profile_set_cmd(capture.candidate_closure@)).push(
                            spec_profile_link_cmd(),
                        )
                    },
                }
            },
        old(runner).spec_keeps_record() ==> spec_none_switch(final(runner).spec_issued(), old(runner).spec_issued().len() as int),
{
    let closure = capture.candidate_closure.as_str();
    match pin_check(pin, closure) {
        Err(e) => {
            return Err(e);
        },
        Ok(()) => {},
    }
    proof {
        adapter_never_switches_running_system(Seq::empty(), Seq::empty(), Seq::empty(), closure@, Seq::empty());
    }
    let set = runner.run(&CommandSpec::nix_env_profile_set(closure));
    let ghost set_seen = set;
    match set {
        Err(e) => {
            let r = Err(from_command_error(e));
            proof {
                let back: Result<CommandOutput, CommandError> = Err(CommandError::NotRegistered);
                let _ = old(runner).spec_answers(spec_profile_link_cmd(), back);
                assert(old(runner).spec_answers(spec_profile_set_cmd(closure@), set_seen));
            }
            return r;
        },
        Ok(_) => {},
    }
    let back = runner.run(&CommandSpec::read_profile_target());
    profile_check(back, closure)
}

} // verus!
