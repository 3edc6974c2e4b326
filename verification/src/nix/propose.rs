//! Deterministic Nix proposals and their immutable capture.

use crate::nix::capture::{CaptureError, StoredCapture};
use crate::nix::command_runner::{spec_eval_candidate_cmd, CommandError, CommandOutput, CommandRunner, CommandSpec};
use crate::nix::promotion::{adapter_never_switches_running_system, spec_none_switch};
use crate::protocol::{strings_view, BaseRevision, ConfigFileChange, TestPlan};
use crate::text::{push_char, spec_trim, trim};
use vstd::prelude::*;
use vstd::string::StringExecFns;

verus! {

/// The immutable capture of a proposed candidate.
#[derive(Debug, Clone)]
pub struct CapturedProposal {
    pub base_revision: BaseRevision,
    pub candidate_closure: String,
    pub flake_ref: String,
    pub diff: String,
}

/// A successful proposal.
#[derive(Debug, Clone)]
pub struct ProposalResult {
    pub capture: CapturedProposal,
    pub diff: String,
    pub test_plan: TestPlan,
    pub affected_resources: Vec<String>,
}

/// Why a proposal failed.
#[derive(Debug, Clone)]
pub enum ProposeError {
    Command(CommandError),
    Capture(CaptureError),
}

/// One line of a proposal's diff: `<path>: <content>`.
pub open spec fn spec_diff_line(c: ConfigFileChange) -> Seq<char> {
    c.path@ + ": "@ + c.content@
}

pub open spec fn spec_lines(lines: Seq<Seq<char>>) -> Seq<char>
    decreases lines.len(),
{
    if lines.len() == 0 {
        Seq::empty()
    } else if lines.len() == 1 {
        lines[0]
    } else {
        spec_lines(lines.drop_last()) + seq!['\n'] + lines.last()
    }
}

/// A proposal's diff: one line per change.
pub open spec fn spec_proposal_diff(changes: Seq<ConfigFileChange>) -> Seq<char> {
    spec_lines(changes.map_values(|c: ConfigFileChange| spec_diff_line(c)))
}

/// The diff of a change set.
pub fn proposal_diff(changes: &Vec<ConfigFileChange>) -> (r: String)
    ensures
        r@ == spec_proposal_diff(changes@),
{
    let ghost f = |c: ConfigFileChange| spec_diff_line(c);
    let mut s = String::new();
    let mut i: usize = 0;
    assert(changes@.take(0).map_values(f) =~= Seq::<Seq<char>>::empty());
    while i < changes.len()
        invariant
            i <= changes@.len(),
            f == (|c: ConfigFileChange| spec_diff_line(c)),
            s@ == spec_lines(changes@.take(i as int).map_values(f)),
        decreases changes@.len() - i,
    {
        let ghost before = changes@.take(i as int).map_values(f);
        let ghost x = spec_diff_line(changes@[i as int]);
        assert(changes@.take(i + 1).map_values(f) =~= before.push(x));
        assert(before.push(x).drop_last() =~= before);
        if i > 0 {
            push_char(&mut s, '\n');
        } else {
            assert(before.push(x)[0] == x);
        }
        s.append(changes[i].path.as_str());
        s.append(": ");
        s.append(changes[i].content.as_str());
        i = i + 1;
    }
    assert(changes@.take(changes@.len() as int) =~= changes@);
    s
}

/// The proposal for a change set whose candidate closure evaluated to
/// `closure`: bound to `base`, flake `/etc/nixos#agentbed`, tested by
/// `nixos-rebuild test`, touching the root configuration.
pub open spec fn spec_proposal(p: ProposalResult, changes: Seq<ConfigFileChange>, base: BaseRevision, closure: Seq<char>) -> bool {
    &&& p.capture.base_revision@ == base@
    &&& p.capture.candidate_closure@ == closure
    &&& p.capture.flake_ref@ == "/etc/nixos#agentbed"@
    &&& p.capture.diff@ == spec_proposal_diff(changes)
    &&& p.diff@ == spec_proposal_diff(changes)
    &&& p.test_plan.adapter@ == "nix"@
    &&& strings_view(p.test_plan.steps@) == seq!["nixos-rebuild test"@]
    &&& strings_view(p.affected_resources@) == seq!["root_config"@]
}

/// The proposal, given what evaluating the candidate gave: its trimmed output
/// is the closure; a failed evaluation fails the proposal.
pub fn proposal_from(
    evaluated: Result<CommandOutput, CommandError>,
    changes: &Vec<ConfigFileChange>,
    base: &BaseRevision,
) -> (r: Result<ProposalResult, ProposeError>)
    ensures
        match evaluated {
            Err(e) => r matches Err(ProposeError::Command(e2)) && e2 == e,
            Ok(o) => r matches Ok(p) && spec_proposal(p, changes@, *base, spec_trim(o.stdout@)),
        },
{
    let out = match evaluated {
        Err(e) => {
            return Err(ProposeError::Command(e));
        },
        Ok(o) => o,
    };
    let closure = trim(out.stdout.as_str());
    let diff = proposal_diff(changes);
    let mut steps: Vec<String> = Vec::new();
    steps.push("nixos-rebuild test".to_owned());
    let mut affected: Vec<String> = Vec::new();
    affected.push("root_config".to_owned());
    assert(strings_view(steps@) =~= seq!["nixos-rebuild test"@]);
    assert(strings_view(affected@) =~= seq!["root_config"@]);
    let capture = CapturedProposal {
        base_revision: base.duplicate(),
        candidate_closure: closure,
        flake_ref: "/etc/nixos#agentbed".to_owned(),
        diff: diff.clone(),
    };
    Ok(ProposalResult { capture, diff, test_plan: TestPlan { adapter: "nix".to_owned(), steps }, affected_resources: affected })
}

/// Produce a deterministic proposal bound to the active base revision:
/// evaluate the candidate closure for the change set, the one command handed
/// to the runner.
pub fn propose<R: CommandRunner>(runner: &mut R, changes: &Vec<ConfigFileChange>, base: &BaseRevision) -> (r: Result<
    ProposalResult,
    ProposeError,
>)
    ensures
        r matches Ok(p) ==> exists|closure: Seq<char>| #[trigger] spec_proposal(p, changes@, *base, closure),
        r matches Err(e) ==> e is Command,
        exists|out: Result<CommandOutput, CommandError>|
            #[trigger] old(runner).spec_answers(spec_eval_candidate_cmd(changes@), out) && match out {
                Err(e) => r matches Err(ProposeError::Command(e2)) && e2 == e,
                Ok(o) => r matches Ok(p) && spec_proposal(p, changes@, *base, spec_trim(o.stdout@)),
            },
        old(runner).spec_keeps_record() ==> final(runner).spec_issued() == old(runner).spec_issued().push(
            spec_eval_candidate_cmd(changes@),
        ),
        old(runner).spec_keeps_record() ==> spec_none_switch(final(runner).spec_issued(), old(runner).spec_issued().len() as int),
{
    proof {
        adapter_never_switches_running_system(changes@, Seq::empty(), Seq::empty(), Seq::empty(), Seq::empty());
    }
    let evaluated = runner.run(&CommandSpec::nix_eval_candidate(changes));
    proposal_from(evaluated, changes, base)
}

/// Propose unless a capture is already active: an active capture is a
/// conflict, and a store that could not be read fails the proposal.
pub fn propose_unless_captured<R: CommandRunner>(
    runner: &mut R,
    active: Result<Option<StoredCapture>, CaptureError>,
    changes: &Vec<ConfigFileChange>,
    base: &BaseRevision,
) -> (r: Result<ProposalResult, ProposeError>)
    ensures
        match active {
            Err(e) => r matches Err(ProposeError::Capture(e2)) && e2 == e,
            Ok(Some(_)) => r matches Err(ProposeError::Capture(CaptureError::Conflict)),
            Ok(None) => r matches Ok(p) ==> exists|closure: Seq<char>| #[trigger] spec_proposal(p, changes@, *base, closure),
        },
        !(active matches Ok(None)) ==> *final(runner) == *old(runner),
        active matches Ok(None) ==> exists|out: Result<CommandOutput, CommandError>|
            #[trigger] old(runner).spec_answers(spec_eval_candidate_cmd(changes@), out) && match out {
                Err(e) => r matches Err(ProposeError::Command(e2)) && e2 == e,
                Ok(o) => r matches Ok(p) && spec_proposal(p, changes@, *base, spec_trim(o.stdout@)),
            },
        old(runner).spec_keeps_record() ==> final(runner).spec_issued() == if active matches Ok(None) {
            old(runner).spec_issued().push(spec_eval_candidate_cmd(changes@))
        } else {
            old(runner).spec_issued()
        },
        old(runner).spec_keeps_record() ==> spec_none_switch(final(runner).spec_issued(), old(runner).spec_issued().len() as int),
{
    match active {
        Err(e) => Err(ProposeError::Capture(e)),
        Ok(Some(_)) => Err(ProposeError::Capture(CaptureError::Conflict)),
        Ok(None) => propose(runner, changes, base),
    }
}

} // verus!
