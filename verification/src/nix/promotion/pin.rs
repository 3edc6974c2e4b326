//! Pin the captured candidate closure in the store.

use crate::nix::command_runner::{spec_realise_cmd, CommandError, CommandOutput, CommandRunner, CommandSpec};
use crate::nix::promotion::{
    adapter_never_switches_running_system, from_command_error, spec_from_command_error, spec_none_switch, PromotionError,
};
use crate::nix::propose::CapturedProposal;
use crate::protocol::BaseRevision;
use crate::text::{spec_trim, trim};
use vstd::prelude::*;

verus! {

/// The pin, given what realising the closure printed: the realised path must
/// be the captured candidate.
pub open spec fn spec_pin(out: Result<CommandOutput, CommandError>, candidate: Seq<char>, r: Result<String, PromotionError>) -> bool {
    match out {
        Err(e) => r matches Err(p) && spec_from_command_error(e, p),
        Ok(o) => if spec_trim(o.stdout@) == candidate {
            r matches Ok(s) && s@ == candidate
        } else {
            r matches Err(PromotionError::ClosureMismatch { expected, actual }) && expected@ == candidate && actual@
                == spec_trim(o.stdout@)
        },
    }
}

pub fn pin_from(out: Result<CommandOutput, CommandError>, capture: &CapturedProposal) -> (r: Result<String, PromotionError>)
    ensures
        spec_pin(out, capture.candidate_closure@, r),
{
    match out {
        Err(e) => Err(from_command_error(e)),
        Ok(o) => {
            let realised = trim(o.stdout.as_str());
            if realised != capture.candidate_closure {
                Err(PromotionError::ClosureMismatch { expected: capture.candidate_closure.clone(), actual: realised })
            } else {
                Ok(realised)
            }
        },
    }
}

/// The durable record that a candidate was pinned: the captured candidate,
/// the closure the store realised for it, and the base it was proposed on.
#[derive(Debug, Clone, PartialEq, Eq)]
pub struct PinRecord {
    pub candidate_closure: String,
    pub realised_closure: String,
    pub base_revision: BaseRevision,
}

/// The pin record of a capture whose candidate was realised as itself.
pub fn pin_record(capture: &CapturedProposal) -> (p: PinRecord)
    ensures
        p.candidate_closure@ == capture.candidate_closure@,
        p.realised_closure@ == capture.candidate_closure@,
        p.base_revision@ == capture.base_revision@,
{
    PinRecord {
        candidate_closure: capture.candidate_closure.clone(),
        realised_closure: capture.candidate_closure.clone(),
        base_revision: capture.base_revision.duplicate(),
    }
}

/// Whether a durable pin covers `closure`: it was recorded for that closure,
/// and the store realised exactly it.
pub open spec fn spec_pin_ok(pin: Option<PinRecord>, closure: Seq<char>) -> bool {
    pin matches Some(p) && p.candidate_closure@ == closure && p.realised_closure@ == closure
}

/// How a step refuses without a covering pin: no pin at all is `PinRequired`;
/// a pin of another closure is `PinMismatch`, naming the closure pinned.
pub open spec fn spec_pin_refusal(pin: Option<PinRecord>, closure: Seq<char>, r: Result<(), PromotionError>) -> bool {
    match pin {
        None => r == Err::<(), PromotionError>(PromotionError::PinRequired),
        Some(p) => r matches Err(PromotionError::PinMismatch { expected, pinned }) && expected@ == closure && pinned@
            == p.candidate_closure@,
    }
}

/// Check that a durable pin covers `closure`.
pub fn pin_check(pin: &Option<PinRecord>, closure: &str) -> (r: Result<(), PromotionError>)
    ensures
        spec_pin_ok(*pin, closure@) ==> r is Ok,
        !spec_pin_ok(*pin, closure@) ==> spec_pin_refusal(*pin, closure@, r),
{
    match pin {
        None => Err(PromotionError::PinRequired),
        Some(p) => {
            let wanted = closure.to_owned();
            if p.candidate_closure == wanted && p.realised_closure == wanted {
                Ok(())
            } else {
                Err(PromotionError::PinMismatch { expected: closure.to_owned(), pinned: p.candidate_closure.clone() })
            }
        },
    }
}

/// Realise the captured candidate and check the store returned exactly it.
pub fn pin_closure<R: CommandRunner>(runner: &mut R, capture: &CapturedProposal) -> (r: Result<String, PromotionError>)
    ensures
        exists|out: Result<CommandOutput, CommandError>|
            old(runner).spec_answers(spec_realise_cmd(capture.candidate_closure@), out) && #[trigger] spec_pin(out, capture.candidate_closure@, r),
        old(runner).spec_keeps_record() ==> final(runner).spec_issued() == old(runner).spec_issued().push(spec_realise_cmd(capture.candidate_closure@)),
        old(runner).spec_keeps_record() ==> spec_none_switch(final(runner).spec_issued(), old(runner).spec_issued().len() as int),
{
    let out = runner.run(&CommandSpec::nix_store_realise(capture.candidate_closure.as_str()));
    proof {
        adapter_never_switches_running_system(
            Seq::empty(),
            Seq::empty(),
            Seq::empty(),
            capture.candidate_closure@,
            Seq::empty(),
        );
    }
    pin_from(out, capture)
}

} // verus!
