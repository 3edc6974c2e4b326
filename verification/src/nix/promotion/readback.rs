//! Read back that the profile, the boot default and the store agree on the
//! pinned closure.

use crate::nix::command_runner::{
    spec_profile_link_cmd, spec_query_cmd, spec_read_boot_cmd, CommandError, CommandOutput, CommandRunner, CommandSpec,
    CommandView,
};
use crate::nix::promotion::{
    adapter_never_switches_running_system, from_command_error, spec_from_command_error, spec_none_switch, PromotionError,
};
use crate::text::{spec_trim, trim};
use vstd::prelude::*;

verus! {

/// Agreement between the profile target, the boot default and the pinned
/// closure's store path.
#[derive(Debug, Clone, Copy, PartialEq, Eq, Structural)]
pub struct Agreement {
    pub profile_matches: bool,
    pub boot_matches: bool,
    pub closure_matches: bool,
}

/// The read-back verdict, given the three trimmed observations: all three
/// must be the pinned closure.
pub open spec fn spec_agreement(profile: Seq<char>, boot: Seq<char>, store_path: Seq<char>, pinned: Seq<char>, r: Result<Agreement, PromotionError>) -> bool {
    if profile == pinned && boot == pinned && store_path == pinned {
        r == Ok::<Agreement, PromotionError>(Agreement { profile_matches: true, boot_matches: true, closure_matches: true })
    } else {
        r matches Err(PromotionError::AgreementMismatch { profile: p, boot: b, expected: e }) && p@ == profile && b@ == boot
            && e@ == pinned
    }
}

/// Decide agreement from the observations.
pub fn agreement_of(profile: String, boot: String, store_path: &String, pinned: &str) -> (r: Result<Agreement, PromotionError>)
    ensures
        spec_agreement(profile@, boot@, store_path@, pinned@, r),
{
    let expected = pinned.to_owned();
    let profile_matches = profile == expected;
    let boot_matches = boot == expected;
    let closure_matches = *store_path == expected;
    if !profile_matches || !boot_matches || !closure_matches {
        return Err(PromotionError::AgreementMismatch { profile, boot, expected });
    }
    Ok(Agreement { profile_matches, boot_matches, closure_matches })
}

/// The read-back's four commands, in the order it runs them.
pub open spec fn spec_readback_commands(pinned: Seq<char>) -> Seq<CommandView> {
    seq![
        spec_profile_link_cmd(),
        spec_read_boot_cmd(),
        spec_query_cmd("--hash"@, pinned),
        spec_query_cmd("--out-path"@, pinned),
    ]
}

/// The trimmed output of a successful answer.
pub open spec fn spec_read(out: Result<CommandOutput, CommandError>) -> Seq<char> {
    match out {
        Ok(o) => spec_trim(o.stdout@),
        Err(_) => Seq::empty(),
    }
}

/// How many of its commands the read-back runs, given the answers to the
/// first three: it stops at the first failed command, and does not query
/// the store path when the profile or the boot default is not the pin.
pub open spec fn spec_readback_steps(
    pa: Result<CommandOutput, CommandError>,
    ba: Result<CommandOutput, CommandError>,
    ha: Result<CommandOutput, CommandError>,
    pinned: Seq<char>,
) -> int {
    if pa is Err {
        1
    } else if ba is Err {
        2
    } else if ha is Err {
        3
    } else if spec_read(pa) != pinned || spec_read(ba) != pinned {
        3
    } else {
        4
    }
}

/// A failed command's error as the read-back's.
pub open spec fn spec_failed_with(e: CommandError, r: Result<Agreement, PromotionError>) -> bool {
    r matches Err(p) && spec_from_command_error(e, p)
}

/// The read-back's verdict on the answers to its commands: the first failed
/// command's error; then a profile or boot default that is not the pin is an
/// `AgreementMismatch`; then the store path decides as [`spec_agreement`].
pub open spec fn spec_readback_verdict(
    pa: Result<CommandOutput, CommandError>,
    ba: Result<CommandOutput, CommandError>,
    ha: Result<CommandOutput, CommandError>,
    sa: Result<CommandOutput, CommandError>,
    pinned: Seq<char>,
    r: Result<Agreement, PromotionError>,
) -> bool {
    match pa {
        Err(e) => spec_failed_with(e, r),
        Ok(_) => match ba {
            Err(e) => spec_failed_with(e, r),
            Ok(_) => match ha {
                Err(e) => spec_failed_with(e, r),
                Ok(_) => if spec_read(pa) != pinned || spec_read(ba) != pinned {
                    r matches Err(PromotionError::AgreementMismatch { profile: p, boot: b, expected: x }) && p@
                        == spec_read(pa) && b@ == spec_read(ba) && x@ == pinned
                } else {
                    match sa {
                        Err(e) => spec_failed_with(e, r),
                        Ok(_) => spec_agreement(spec_read(pa), spec_read(ba), spec_read(sa), pinned, r),
                    }
                },
            },
        },
    }
}

/// Read the profile target, the boot default and the closure's hash; the
/// profile and the boot default must be the pinned closure; then the
/// closure's store path must be too. The commands run in that order until
/// one fails or a mismatch is found, and the verdict is the one the runner's
/// answers give.
pub fn read_agreement<R: CommandRunner>(runner: &mut R, pinned: &str) -> (r: Result<Agreement, PromotionError>)
    ensures
        exists|
            pa: Result<CommandOutput, CommandError>,
            ba: Result<CommandOutput, CommandError>,
            ha: Result<CommandOutput, CommandError>,
            sa: Result<CommandOutput, CommandError>,
        |
            {
                let cmds = spec_readback_commands(pinned@);
                let steps = spec_readback_steps(pa, ba, ha, pinned@);
                &&& #[trigger] spec_readback_verdict(pa, ba, ha, sa, pinned@, r)
                &&& old(runner).spec_answers(cmds[0], pa)
                &&& steps >= 2 ==> old(runner).spec_answers(cmds[1], ba)
                &&& steps >= 3 ==> old(runner).spec_answers(cmds[2], ha)
                &&& steps >= 4 ==> old(runner).spec_answers(cmds[3], sa)
                &&& old(runner).spec_keeps_record() ==> final(runner).spec_issued() == old(runner).spec_issued()
                    + cmds.take(steps)
            },
        old(runner).spec_keeps_record() ==> spec_none_switch(final(runner).spec_issued(), old(runner).spec_issued().len() as int),
{
    let ghost before = runner.spec_issued();
    let ghost start = *runner;
    let ghost cmds = spec_readback_commands(pinned@);
    let ghost none: Result<CommandOutput, CommandError> = Err(CommandError::NotRegistered);
    proof {
        reveal_strlit("--out-path");
        reveal_strlit("--hash");
        adapter_never_switches_running_system(Seq::empty(), Seq::empty(), Seq::empty(), pinned@, "--out-path"@);
        adapter_never_switches_running_system(Seq::empty(), Seq::empty(), Seq::empty(), pinned@, "--hash"@);
    }
    let pa = runner.run(&CommandSpec::read_profile_target());
    let ghost pa_seen = pa;
    let profile = match pa {
        Err(e) => {
            let r = Err(from_command_error(e));
            proof {
                assert(spec_readback_verdict(pa_seen, none, none, none, pinned@, r));
                if start.spec_keeps_record() {
                    assert(runner.spec_issued() =~= before + cmds.take(1));
                }
            }
            return r;
        },
        Ok(o) => trim(o.stdout.as_str()),
    };
    let ba = runner.run(&CommandSpec::read_boot_default());
    let ghost ba_seen = ba;
    let boot = match ba {
        Err(e) => {
            let r = Err(from_command_error(e));
            proof {
                assert(spec_readback_verdict(pa_seen, ba_seen, none, none, pinned@, r));
                if start.spec_keeps_record() {
                    assert(runner.spec_issued() =~= before + cmds.take(2));
                }
            }
            return r;
        },
        Ok(o) => trim(o.stdout.as_str()),
    };
    let ha = runner.run(&CommandSpec::read_closure_hash(pinned));
    let ghost ha_seen = ha;
    match ha {
        Err(e) => {
            let r = Err(from_command_error(e));
            proof {
                assert(spec_readback_verdict(pa_seen, ba_seen, ha_seen, none, pinned@, r));
                if start.spec_keeps_record() {
                    assert(runner.spec_issued() =~= before + cmds.take(3));
                }
            }
            return r;
        },
        Ok(_) => {},
    }
    let expected = pinned.to_owned();
    if profile != expected || boot != expected {
        let r = Err(PromotionError::AgreementMismatch { profile, boot, expected });
        proof {
            assert(spec_readback_verdict(pa_seen, ba_seen, ha_seen, none, pinned@, r));
            if start.spec_keeps_record() {
                assert(runner.spec_issued() =~= before + cmds.take(3));
            }
        }
        return r;
    }
    let sa = runner.run(&CommandSpec::read_closure_store_path(pinned));
    let ghost sa_seen = sa;
    let r = match sa {
        Err(e) => Err(from_command_error(e)),
        Ok(o) => {
            let store_path = trim(o.stdout.as_str());
            agreement_of(profile, boot, &store_path, pinned)
        },
    };
    proof {
        assert(spec_readback_verdict(pa_seen, ba_seen, ha_seen, sa_seen, pinned@, r));
        if start.spec_keeps_record() {
            assert(runner.spec_issued() =~= before + cmds.take(4));
        }
    }
    r
}

} // verus!
