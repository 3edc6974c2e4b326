//! Promotion primitives: build, test activation, pin, profile, boot, flush
//! and read-back. None of them switches the running system.

use crate::nix::command_runner::{
    lemma_eval_args_head, spec_boot_cmd, spec_build_cmd, spec_config_digest_cmd, spec_contains, spec_etc_git_head_cmd,
    spec_eval_candidate_cmd, spec_profile_link_cmd, spec_profile_set_cmd, spec_query_cmd, spec_read_boot_cmd,
    spec_realise_cmd, spec_sync_cmd, spec_test_cmd, CommandError, CommandSpec, CommandView,
};
use crate::protocol::ConfigFileChange;
use vstd::prelude::*;

pub mod boot;
pub mod build_step;
pub mod flush;
pub mod pin;
pub mod profile;
pub mod readback;
pub mod test_activation;

verus! {

/// Why a promotion step failed.
#[derive(Debug, Clone, PartialEq, Eq)]
pub enum PromotionError {
    CommandFailed { code: i32, stderr: String },
    AgreementMismatch { profile: String, boot: String, expected: String },
    ClosureMismatch { expected: String, actual: String },
    AlreadyActivated,
    BaseMoved,
    NotRegistered,
    /// No durable pin exists for the candidate.
    PinRequired,
    /// The durable pin is of another closure.
    PinMismatch { expected: String, pinned: String },
    /// The system profile does not point at the pinned closure.
    ProfileMismatch { expected: String, actual: String },
    /// The activation reservation could not be made durable.
    ReservationNotDurable,
}

/// How a command failure reads as a promotion failure.
pub open spec fn spec_from_command_error(e: CommandError, p: PromotionError) -> bool {
    match e {
        CommandError::NotRegistered => p is NotRegistered,
        CommandError::NonZeroExit { code, stderr } => p matches PromotionError::CommandFailed { code: c, stderr: s }
            && c == code && s@ == stderr@,
        CommandError::Timeout => p matches PromotionError::CommandFailed { code: c, stderr: s } && c == -1 && s@
            == "timeout"@,
        CommandError::Interrupted => p matches PromotionError::CommandFailed { code: c, stderr: s } && c == -2
            && s@ == "interrupted"@,
    }
}

/// A command failure as a promotion failure: a missing registration stays
/// one, a non-zero exit keeps its code and output, a timeout is code -1 and
/// an interruption code -2.
pub fn from_command_error(e: CommandError) -> (p: PromotionError)
    ensures
        spec_from_command_error(e, p),
{
    match e {
        CommandError::NotRegistered => PromotionError::NotRegistered,
        CommandError::NonZeroExit { code, stderr } => PromotionError::CommandFailed { code, stderr },
        CommandError::Timeout => PromotionError::CommandFailed { code: -1, stderr: "timeout".to_owned() },
        CommandError::Interrupted => PromotionError::CommandFailed { code: -2, stderr: "interrupted".to_owned() },
    }
}

/// Whether a program path names `name`: it is the name, or its last
/// component is.
pub open spec fn spec_runs_program(path: Seq<char>, name: Seq<char>) -> bool {
    ||| path == name
    ||| (path.len() > name.len() && path.subrange(path.len() - name.len() - 1, path.len() as int) == seq!['/'] + name)
}

/// Whether a command would switch the running system: its action word (the
/// argument after the program) is `switch`, or its program is `systemctl` or
/// `systemd-run`.
pub open spec fn spec_switches_running_system(c: CommandView) -> bool {
    ||| (c.argv.len() > 1 && c.argv[1] == "switch"@)
    ||| spec_runs_program(c.executable, "systemctl"@)
    ||| spec_runs_program(c.executable, "systemd-run"@)
}

/// Whether none of the commands from position `from` on switches the running
/// system.
pub open spec fn spec_none_switch(issued: Seq<CommandView>, from: int) -> bool {
    forall|i: int| from <= i < issued.len() ==> !spec_switches_running_system(#[trigger] issued[i])
}

/// A path whose `j`-th character from the end differs from the name's does
/// not name the program.
proof fn lemma_not_program(path: Seq<char>, name: Seq<char>, j: int)
    requires
        1 <= j <= name.len(),
        j <= path.len(),
        path[path.len() - j] != name[name.len() - j],
    ensures
        !spec_runs_program(path, name),
{
    if path.len() > name.len() && path.subrange(path.len() - name.len() - 1, path.len() as int) == seq!['/'] + name {
        let t = path.subrange(path.len() - name.len() - 1, path.len() as int);
        assert(t[name.len() + 1 - j] == path[path.len() - j]);
        assert((seq!['/'] + name)[name.len() + 1 - j] == name[name.len() - j]);
    }
}

/// A command whose action word is not six characters long, and whose
/// program ends neither in `l` nor in `un`, does not switch the running
/// system.
proof fn lemma_quiet(c: CommandView)
    requires
        c.argv.len() > 1,
        c.argv[1].len() != 6,
        c.executable.len() >= 2,
        c.executable.last() != 'l',
        c.executable.last() != 'n' || c.executable[c.executable.len() - 2] != 'u',
    ensures
        !spec_switches_running_system(c),
{
    reveal_strlit("switch");
    reveal_strlit("systemctl");
    reveal_strlit("systemd-run");
    lemma_not_program(c.executable, "systemctl"@, 1);
    if c.executable.last() != 'n' {
        lemma_not_program(c.executable, "systemd-run"@, 1);
    } else {
        lemma_not_program(c.executable, "systemd-run"@, 2);
    }
}

/// No command the Nix adapter issues switches the running system: probing,
/// proposing, building, test activation, pinning, advancing the profile,
/// setting the boot default, flushing and reading back all run commands
/// whose action is not `switch` and whose program is neither `systemctl` nor
/// `systemd-run`, whatever closure, flake, generation or change set they
/// name.
pub proof fn adapter_never_switches_running_system(
    changes: Seq<ConfigFileChange>,
    flake_ref: Seq<char>,
    generation: Seq<char>,
    closure: Seq<char>,
    what: Seq<char>,
)
    ensures
        !spec_switches_running_system(spec_profile_link_cmd()),
        !spec_switches_running_system(spec_etc_git_head_cmd()),
        !spec_switches_running_system(spec_config_digest_cmd()),
        !spec_switches_running_system(spec_eval_candidate_cmd(changes)),
        !spec_switches_running_system(spec_build_cmd(flake_ref)),
        !spec_switches_running_system(spec_test_cmd(flake_ref, generation)),
        !spec_switches_running_system(spec_realise_cmd(closure)),
        !spec_switches_running_system(spec_profile_set_cmd(closure)),
        !spec_switches_running_system(spec_boot_cmd(closure)),
        !spec_switches_running_system(spec_sync_cmd()),
        !spec_switches_running_system(spec_read_boot_cmd()),
        !spec_switches_running_system(spec_query_cmd(what, closure)),
{
    assert(!spec_switches_running_system(spec_profile_link_cmd())) by {
        reveal_strlit("/run/current-system/sw/bin/readlink");
        reveal_strlit("-f");
        lemma_quiet(spec_profile_link_cmd());
    }
    assert(!spec_switches_running_system(spec_etc_git_head_cmd())) by {
        reveal_strlit("/run/current-system/sw/bin/cat");
        reveal_strlit("/etc/.git/refs/heads/agentbed-base");
        lemma_quiet(spec_etc_git_head_cmd());
    }
    assert(!spec_switches_running_system(spec_config_digest_cmd())) by {
        reveal_strlit("/run/current-system/sw/bin/nix");
        reveal_strlit("hash");
        lemma_quiet(spec_config_digest_cmd());
    }
    assert(!spec_switches_running_system(spec_eval_candidate_cmd(changes))) by {
        reveal_strlit("/run/current-system/sw/bin/nix");
        reveal_strlit("eval");
        lemma_eval_args_head(changes);
        lemma_quiet(spec_eval_candidate_cmd(changes));
    }
    assert(!spec_switches_running_system(spec_build_cmd(flake_ref))) by {
        reveal_strlit("/run/current-system/sw/bin/nixos-rebuild");
        reveal_strlit("build");
        lemma_quiet(spec_build_cmd(flake_ref));
    }
    assert(!spec_switches_running_system(spec_test_cmd(flake_ref, generation))) by {
        reveal_strlit("/run/current-system/sw/bin/nixos-rebuild");
        reveal_strlit("test");
        lemma_quiet(spec_test_cmd(flake_ref, generation));
    }
    assert(!spec_switches_running_system(spec_realise_cmd(closure))) by {
        reveal_strlit("/run/current-system/sw/bin/nix-store");
        reveal_strlit("--realise");
        lemma_quiet(spec_realise_cmd(closure));
    }
    assert(!spec_switches_running_system(spec_profile_set_cmd(closure))) by {
        reveal_strlit("/run/current-system/sw/bin/nix-env");
        reveal_strlit("-p");
        lemma_quiet(spec_profile_set_cmd(closure));
    }
    assert(!spec_switches_running_system(spec_boot_cmd(closure))) by {
        reveal_strlit("/bin/switch-to-configuration");
        reveal_strlit("boot");
        let exe = closure + "/bin/switch-to-configuration"@;
        assert(exe.last() == 'n');
        assert(exe[exe.len() - 2] == 'o');
        lemma_quiet(spec_boot_cmd(closure));
    }
    assert(!spec_switches_running_system(spec_sync_cmd())) by {
        reveal_strlit("/run/current-system/sw/bin/sync");
        reveal_strlit("/nix/var/nix/profiles/system");
        lemma_quiet(spec_sync_cmd());
    }
    assert(!spec_switches_running_system(spec_read_boot_cmd())) by {
        reveal_strlit("/run/current-system/sw/bin/cat");
        reveal_strlit("/boot/loader/entries/agentbed-default");
        lemma_quiet(spec_read_boot_cmd());
    }
    assert(!spec_switches_running_system(spec_query_cmd(what, closure))) by {
        reveal_strlit("/run/current-system/sw/bin/nix-store");
        reveal_strlit("--query");
        lemma_quiet(spec_query_cmd(what, closure));
    }
}

/// Fragments of commands that would switch the running system.
pub open spec fn spec_forbidden_fragments() -> Seq<Seq<char>> {
    seq!["nixos-rebuild switch"@, "switch-to-configuration switch"@, "systemctl"@, "systemd-run"@]
}

/// A command's text: its arguments separated by single spaces.
pub open spec fn spec_command_text(argv: Seq<Seq<char>>) -> Seq<char>
    decreases argv.len(),
{
    if argv.len() == 0 {
        Seq::empty()
    } else if argv.len() == 1 {
        argv[0]
    } else {
        spec_command_text(argv.drop_last()) + seq![' '] + argv.last()
    }
}

/// Whether a command would switch the running system.
pub open spec fn spec_is_live_activation(c: Seq<Seq<char>>) -> bool {
    exists|k: int| 0 <= k < 4 && spec_contains(spec_command_text(c), #[trigger] spec_forbidden_fragments()[k])
}

/// Whether a command would switch the running system: its text contains
/// `nixos-rebuild switch`, `switch-to-configuration switch`, `systemctl` or
/// `systemd-run`.
pub fn is_live_activation(spec: &CommandSpec) -> (r: bool)
    ensures
        r == spec_is_live_activation(spec@.argv),
{
    let mut text = String::new();
    let mut i: usize = 0;
    assert(spec@.argv.take(0) =~= Seq::<Seq<char>>::empty());
    while i < spec.argv.len()
        invariant
            i <= spec.argv@.len(),
            text@ == spec_command_text(spec@.argv.take(i as int)),
        decreases spec.argv@.len() - i,
    {
        let ghost before = spec@.argv.take(i as int);
        assert(spec@.argv.take(i + 1).drop_last() =~= before);
        assert(spec@.argv.take(i + 1).last() == spec.argv@[i as int]@);
        if i > 0 {
            crate::text::push_char(&mut text, ' ');
        } else {
            assert(spec@.argv.take(1) =~= seq![spec.argv@[0]@]);
        }
        crate::json::push_str(&mut text, spec.argv[i].as_str());
        i = i + 1;
    }
    assert(spec@.argv.take(spec@.argv.len() as int) =~= spec@.argv);
    let t = text.as_str();
    let a = crate::nix::command_runner::contains(t, "nixos-rebuild switch");
    let b = crate::nix::command_runner::contains(t, "switch-to-configuration switch");
    let c = crate::nix::command_runner::contains(t, "systemctl");
    let d = crate::nix::command_runner::contains(t, "systemd-run");
    let r = a || b || c || d;
    proof {
        let fr = spec_forbidden_fragments();
        if a {
            assert(spec_contains(spec_command_text(spec@.argv), fr[0]));
        }
        if b {
            assert(spec_contains(spec_command_text(spec@.argv), fr[1]));
        }
        if c {
            assert(spec_contains(spec_command_text(spec@.argv), fr[2]));
        }
        if d {
            assert(spec_contains(spec_command_text(spec@.argv), fr[3]));
        }
    }
    r
}

} // verus!
