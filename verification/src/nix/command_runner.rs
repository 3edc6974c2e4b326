//! The command runner boundary of the Nix adapter: the fixed commands it may
//! run, what a run gives back, and a hermetic runner for tests.
//!
//! Every command names its executable by absolute path, with no search of
//! `PATH`. A live runner executes a command with `env_clear` (an empty
//! environment), `stdin_null` (no input) and a `timeout_secs` budget, and
//! reports a run past its budget as `Timeout` and a run ended by a signal as
//! `Interrupted`.

use crate::protocol::{strings_view, ConfigFileChange};
use crate::text::chars_of;
use vstd::prelude::*;
use vstd::string::StringExecFns;

verus! {

pub const NIXOS_REBUILD: &'static str = "/run/current-system/sw/bin/nixos-rebuild";

pub const NIX: &'static str = "/run/current-system/sw/bin/nix";

pub const NIX_STORE: &'static str = "/run/current-system/sw/bin/nix-store";

pub const NIX_ENV: &'static str = "/run/current-system/sw/bin/nix-env";

pub const SYNC: &'static str = "/run/current-system/sw/bin/sync";

pub const READLINK: &'static str = "/run/current-system/sw/bin/readlink";

pub const CAT: &'static str = "/run/current-system/sw/bin/cat";

/// The system profile link.
pub const SYSTEM_PROFILE: &'static str = "/nix/var/nix/profiles/system";

/// How a live runner executes every command.
#[derive(Debug, Clone, Copy, PartialEq, Eq, Structural)]
pub struct ExecPolicy {
    /// Run with an empty environment.
    pub env_clear: bool,
    /// Give the command no standard input.
    pub stdin_null: bool,
    /// Wall-clock budget in seconds.
    pub timeout_secs: u64,
}

/// The policy every command runs under.
pub fn exec_policy() -> (p: ExecPolicy)
    ensures
        p.env_clear,
        p.stdin_null,
        p.timeout_secs == 600,
{
    ExecPolicy { env_clear: true, stdin_null: true, timeout_secs: 600 }
}

/// A command the adapter may invoke.
#[derive(Debug, Clone)]
pub struct CommandSpec {
    pub executable: String,
    pub argv: Vec<String>,
    pub working_dir: Option<String>,
}

/// What a command stands for.
pub struct CommandView {
    pub executable: Seq<char>,
    pub argv: Seq<Seq<char>>,
    pub working_dir: Option<Seq<char>>,
}

impl View for CommandSpec {
    type V = CommandView;

    open spec fn view(&self) -> CommandView {
        CommandView {
            executable: self.executable@,
            argv: strings_view(self.argv@),
            working_dir: match self.working_dir {
                Some(d) => Some(d@),
                None => None,
            },
        }
    }
}

/// The views of string slices.
pub open spec fn strs_view(parts: Seq<&str>) -> Seq<Seq<char>> {
    parts.map_values(|p: &str| p@)
}

fn owned_all(parts: &[&str]) -> (r: Vec<String>)
    ensures
        strings_view(r@) == strs_view(parts@),
{
    let mut r: Vec<String> = Vec::new();
    let mut i: usize = 0;
    while i < parts.len()
        invariant
            i <= parts@.len(),
            r@.len() == i,
            forall|j: int| 0 <= j < i ==> (#[trigger] r@[j])@ == parts@[j]@,
        decreases parts@.len() - i,
    {
        r.push(parts[i].to_owned());
        i = i + 1;
    }
    assert(strings_view(r@) =~= strs_view(parts@));
    r
}

fn command(executable: &str, argv: &[&str], working_dir: Option<&str>) -> (c: CommandSpec)
    ensures
        c@.executable == executable@,
        c@.argv == strs_view(argv@),
        c@.working_dir == match working_dir {
            Some(d) => Some(d@),
            None => None::<Seq<char>>,
        },
{
    CommandSpec {
        executable: executable.to_owned(),
        argv: owned_all(argv),
        working_dir: match working_dir {
            Some(d) => Some(d.to_owned()),
            None => None,
        },
    }
}

/// Whether a command has the given executable, arguments and directory.
pub open spec fn spec_is_command(c: CommandView, executable: &str, argv: Seq<&str>, working_dir: Option<&str>) -> bool {
    &&& c.executable == executable@
    &&& c.argv == strs_view(argv)
    &&& c.working_dir == match working_dir {
        Some(d) => Some(d@),
        None => None::<Seq<char>>,
    }
}

/// `readlink -f` of the system profile: the current generation, and where
/// the profile points.
pub open spec fn spec_profile_link_cmd() -> CommandView {
    CommandView { executable: READLINK@, argv: seq![READLINK@, "-f"@, SYSTEM_PROFILE@], working_dir: None }
}

/// The head of the `/etc` git branch the adapter tracks.
pub open spec fn spec_etc_git_head_cmd() -> CommandView {
    CommandView { executable: CAT@, argv: seq![CAT@, "/etc/.git/refs/heads/agentbed-base"@], working_dir: None }
}

/// The hash of the configuration directory.
pub open spec fn spec_config_digest_cmd() -> CommandView {
    CommandView { executable: NIX@, argv: seq![NIX@, "hash"@, "file"@, "/etc/nixos"@], working_dir: None }
}

/// `nix eval` of the candidate for a change set.
pub open spec fn spec_eval_candidate_cmd(changes: Seq<ConfigFileChange>) -> CommandView {
    CommandView { executable: NIX@, argv: spec_eval_args(changes), working_dir: Some("/etc/nixos"@) }
}

/// `nixos-rebuild build` of a flake.
pub open spec fn spec_build_cmd(flake_ref: Seq<char>) -> CommandView {
    CommandView {
        executable: NIXOS_REBUILD@,
        argv: seq![NIXOS_REBUILD@, "build"@, "--flake"@, flake_ref],
        working_dir: Some("/etc/nixos"@),
    }
}

/// `nixos-rebuild test` of a flake, the boot default kept at a generation.
pub open spec fn spec_test_cmd(flake_ref: Seq<char>, base_generation: Seq<char>) -> CommandView {
    CommandView {
        executable: NIXOS_REBUILD@,
        argv: seq![
            NIXOS_REBUILD@,
            "test"@,
            "--flake"@,
            flake_ref,
            "--option"@,
            "boot.loader.grub.default"@,
            base_generation,
        ],
        working_dir: Some("/etc/nixos"@),
    }
}

/// `nix-store --realise` of a closure.
pub open spec fn spec_realise_cmd(closure: Seq<char>) -> CommandView {
    CommandView { executable: NIX_STORE@, argv: seq![NIX_STORE@, "--realise"@, closure], working_dir: None }
}

/// `nix-env -p <system profile> --set` of a closure.
pub open spec fn spec_profile_set_cmd(closure: Seq<char>) -> CommandView {
    CommandView {
        executable: NIX_ENV@,
        argv: seq![NIX_ENV@, "-p"@, SYSTEM_PROFILE@, "--set"@, closure],
        working_dir: None,
    }
}

/// A closure's `switch-to-configuration boot`.
pub open spec fn spec_boot_cmd(closure: Seq<char>) -> CommandView {
    CommandView {
        executable: closure + "/bin/switch-to-configuration"@,
        argv: seq![closure + "/bin/switch-to-configuration"@, "boot"@],
        working_dir: None,
    }
}

/// `sync` of the system profile and `/boot`.
pub open spec fn spec_sync_cmd() -> CommandView {
    CommandView { executable: SYNC@, argv: seq![SYNC@, SYSTEM_PROFILE@, "/boot"@], working_dir: None }
}

/// The boot default entry.
pub open spec fn spec_read_boot_cmd() -> CommandView {
    CommandView { executable: CAT@, argv: seq![CAT@, "/boot/loader/entries/agentbed-default"@], working_dir: None }
}

/// `nix-store --query` of a closure's hash or store path.
pub open spec fn spec_query_cmd(what: Seq<char>, closure: Seq<char>) -> CommandView {
    CommandView { executable: NIX_STORE@, argv: seq![NIX_STORE@, "--query"@, what, closure], working_dir: None }
}

/// The arguments of `nix eval` for a change set: the candidate attribute,
/// then `--argstr <path> <content>` per change.
pub open spec fn spec_eval_args(changes: Seq<ConfigFileChange>) -> Seq<Seq<char>>
    decreases changes.len(),
{
    if changes.len() == 0 {
        seq![NIX@, "eval"@, "--raw"@, "/etc/nixos#agentbed.candidate"@]
    } else {
        spec_eval_args(changes.drop_last()) + seq!["--argstr"@, changes.last().path@, changes.last().content@]
    }
}

/// `nix eval` always names the program, then `eval`, then its options.
pub proof fn lemma_eval_args_head(changes: Seq<ConfigFileChange>)
    ensures
        spec_eval_args(changes).len() >= 4,
        spec_eval_args(changes)[0] == NIX@,
        spec_eval_args(changes)[1] == "eval"@,
    decreases changes.len(),
{
    if changes.len() > 0 {
        lemma_eval_args_head(changes.drop_last());
    }
}

impl CommandSpec {
    /// `readlink -f` of the system profile: the current generation.
    pub fn nix_current_generation() -> (c: CommandSpec)
        ensures
            spec_is_command(c@, READLINK, seq![READLINK, "-f", SYSTEM_PROFILE], None),
            c@ == spec_profile_link_cmd(),
    {
        let argv = [READLINK, "-f", SYSTEM_PROFILE];
        let c = command(READLINK, &argv, None);
        assert(c@.argv =~= spec_profile_link_cmd().argv);
        c
    }

    /// The head of the `/etc` git branch the adapter tracks.
    pub fn etc_git_head() -> (c: CommandSpec)
        ensures
            spec_is_command(c@, CAT, seq![CAT, "/etc/.git/refs/heads/agentbed-base"], None),
            c@ == spec_etc_git_head_cmd(),
    {
        let argv = [CAT, "/etc/.git/refs/heads/agentbed-base"];
        let c = command(CAT, &argv, None);
        assert(c@.argv =~= spec_etc_git_head_cmd().argv);
        c
    }

    /// The hash of the configuration directory.
    pub fn config_digest() -> (c: CommandSpec)
        ensures
            spec_is_command(c@, NIX, seq![NIX, "hash", "file", "/etc/nixos"], None),
            c@ == spec_config_digest_cmd(),
    {
        let argv = [NIX, "hash", "file", "/etc/nixos"];
        let c = command(NIX, &argv, None);
        assert(c@.argv =~= spec_config_digest_cmd().argv);
        c
    }

    /// Evaluate the candidate closure for a change set.
    pub fn nix_eval_candidate(changes: &Vec<ConfigFileChange>) -> (c: CommandSpec)
        ensures
            c@.executable == NIX@,
            c@.argv == spec_eval_args(changes@),
            c@.working_dir == Some("/etc/nixos"@),
            c@ == spec_eval_candidate_cmd(changes@),
    {
        let head = [NIX, "eval", "--raw", "/etc/nixos#agentbed.candidate"];
        let mut argv = owned_all(&head);
        let mut i: usize = 0;
        assert(changes@.take(0) =~= Seq::<ConfigFileChange>::empty());
        while i < changes.len()
            invariant
                i <= changes@.len(),
                strings_view(argv@) == spec_eval_args(changes@.take(i as int)),
            decreases changes@.len() - i,
        {
            let ghost before = strings_view(argv@);
            argv.push("--argstr".to_owned());
            argv.push(changes[i].path.clone());
            argv.push(changes[i].content.clone());
            assert(changes@.take(i + 1).drop_last() =~= changes@.take(i as int));
            assert(changes@.take(i + 1).last() == changes@[i as int]);
            assert(strings_view(argv@) =~= before + seq!["--argstr"@, changes@[i as int].path@, changes@[i as int].content@]);
            i = i + 1;
        }
        assert(changes@.take(changes@.len() as int) =~= changes@);
        CommandSpec { executable: NIX.to_owned(), argv, working_dir: Some("/etc/nixos".to_owned()) }
    }

    /// `nixos-rebuild build` of a captured candidate.
    pub fn nixos_rebuild_build(flake_ref: &str) -> (c: CommandSpec)
        ensures
            c@.executable == NIXOS_REBUILD@,
            c@.argv == seq![NIXOS_REBUILD@, "build"@, "--flake"@, flake_ref@],
            c@.working_dir == Some("/etc/nixos"@),
            c@ == spec_build_cmd(flake_ref@),
    {
        let argv = [NIXOS_REBUILD, "build", "--flake", flake_ref];
        let c = command(NIXOS_REBUILD, &argv, Some("/etc/nixos"));
        assert(c@.argv =~= spec_build_cmd(flake_ref@).argv);
        c
    }

    /// `nixos-rebuild test` of a captured candidate, defaulting the boot
    /// entry to the base generation.
    pub fn nixos_rebuild_test(flake_ref: &str, base_generation: &str) -> (c: CommandSpec)
        ensures
            c@.executable == NIXOS_REBUILD@,
            c@.argv == seq![
                NIXOS_REBUILD@,
                "test"@,
                "--flake"@,
                flake_ref@,
                "--option"@,
                "boot.loader.grub.default"@,
                base_generation@,
            ],
            c@.working_dir == Some("/etc/nixos"@),
            c@ == spec_test_cmd(flake_ref@, base_generation@),
    {
        let argv = [NIXOS_REBUILD, "test", "--flake", flake_ref, "--option", "boot.loader.grub.default", base_generation];
        let c = command(NIXOS_REBUILD, &argv, Some("/etc/nixos"));
        assert(c@.argv =~= spec_test_cmd(flake_ref@, base_generation@).argv);
        c
    }

    /// Realise a closure in the store.
    pub fn nix_store_realise(closure: &str) -> (c: CommandSpec)
        ensures
            spec_is_command(c@, NIX_STORE, seq![NIX_STORE, "--realise", closure], None),
            c@ == spec_realise_cmd(closure@),
    {
        let argv = [NIX_STORE, "--realise", closure];
        let c = command(NIX_STORE, &argv, None);
        assert(c@.argv =~= spec_realise_cmd(closure@).argv);
        c
    }

    /// Point the system profile at a closure.
    pub fn nix_env_profile_set(closure: &str) -> (c: CommandSpec)
        ensures
            spec_is_command(c@, NIX_ENV, seq![NIX_ENV, "-p", SYSTEM_PROFILE, "--set", closure], None),
            c@ == spec_profile_set_cmd(closure@),
    {
        let argv = [NIX_ENV, "-p", SYSTEM_PROFILE, "--set", closure];
        let c = command(NIX_ENV, &argv, None);
        assert(c@.argv =~= spec_profile_set_cmd(closure@).argv);
        c
    }

    /// Install a closure as the boot default without activating it.
    pub fn switch_to_configuration_boot(closure: &str) -> (c: CommandSpec)
        ensures
            c@.executable == closure@ + "/bin/switch-to-configuration"@,
            c@.argv == seq![closure@ + "/bin/switch-to-configuration"@, "boot"@],
            c@.working_dir.is_none(),
            c@ == spec_boot_cmd(closure@),
    {
        let mut exe = closure.to_owned();
        exe.append("/bin/switch-to-configuration");
        let mut argv: Vec<String> = Vec::new();
        argv.push(exe.clone());
        argv.push("boot".to_owned());
        assert(strings_view(argv@) =~= seq![closure@ + "/bin/switch-to-configuration"@, "boot"@]);
        CommandSpec { executable: exe, argv, working_dir: None }
    }

    /// Flush the profile and boot boundaries to disk.
    pub fn sync_paths() -> (c: CommandSpec)
        ensures
            spec_is_command(c@, SYNC, seq![SYNC, SYSTEM_PROFILE, "/boot"], None),
            c@ == spec_sync_cmd(),
    {
        let argv = [SYNC, SYSTEM_PROFILE, "/boot"];
        let c = command(SYNC, &argv, None);
        assert(c@.argv =~= spec_sync_cmd().argv);
        c
    }

    /// The flush of the profile and boot boundaries: the same command as
    /// [`CommandSpec::sync_paths`].
    pub fn sync_profile_boot_boundaries() -> (c: CommandSpec)
        ensures
            spec_is_command(c@, SYNC, seq![SYNC, SYSTEM_PROFILE, "/boot"], None),
            c@ == spec_sync_cmd(),
    {
        Self::sync_paths()
    }

    /// Read where the system profile points.
    pub fn read_profile_target() -> (c: CommandSpec)
        ensures
            spec_is_command(c@, READLINK, seq![READLINK, "-f", SYSTEM_PROFILE], None),
            c@ == spec_profile_link_cmd(),
    {
        let argv = [READLINK, "-f", SYSTEM_PROFILE];
        let c = command(READLINK, &argv, None);
        assert(c@.argv =~= spec_profile_link_cmd().argv);
        c
    }

    /// Read the boot default entry.
    pub fn read_boot_default() -> (c: CommandSpec)
        ensures
            spec_is_command(c@, CAT, seq![CAT, "/boot/loader/entries/agentbed-default"], None),
            c@ == spec_read_boot_cmd(),
    {
        let argv = [CAT, "/boot/loader/entries/agentbed-default"];
        let c = command(CAT, &argv, None);
        assert(c@.argv =~= spec_read_boot_cmd().argv);
        c
    }

    /// Read a closure's hash.
    pub fn read_closure_hash(closure: &str) -> (c: CommandSpec)
        ensures
            spec_is_command(c@, NIX_STORE, seq![NIX_STORE, "--query", "--hash", closure], None),
            c@ == spec_query_cmd("--hash"@, closure@),
    {
        let argv = [NIX_STORE, "--query", "--hash", closure];
        let c = command(NIX_STORE, &argv, None);
        assert(c@.argv =~= spec_query_cmd("--hash"@, closure@).argv);
        c
    }

    /// Read a closure's store path.
    pub fn read_closure_store_path(closure: &str) -> (c: CommandSpec)
        ensures
            spec_is_command(c@, NIX_STORE, seq![NIX_STORE, "--query", "--out-path", closure], None),
            c@ == spec_query_cmd("--out-path"@, closure@),
    {
        let argv = [NIX_STORE, "--query", "--out-path", closure];
        let c = command(NIX_STORE, &argv, None);
        assert(c@.argv =~= spec_query_cmd("--out-path"@, closure@).argv);
        c
    }

    /// Whether some argument contains `needle`.
    pub fn argv_contains(&self, needle: &str) -> (r: bool)
        ensures
            r == exists|i: int| 0 <= i < self@.argv.len() && spec_contains(#[trigger] self@.argv[i], needle@),
    {
        let mut i: usize = 0;
        while i < self.argv.len()
            invariant
                i <= self.argv@.len(),
                forall|j: int| 0 <= j < i ==> !spec_contains(#[trigger] self@.argv[j], needle@),
            decreases self.argv@.len() - i,
        {
            if contains(self.argv[i].as_str(), needle) {
                assert(spec_contains(self@.argv[i as int], needle@));
                return true;
            }
            i = i + 1;
        }
        false
    }

    /// Whether two commands are the same command.
    pub fn same_as(&self, other: &CommandSpec) -> (r: bool)
        ensures
            r == (self@ == other@),
    {
        let same_dir = match (&self.working_dir, &other.working_dir) {
            (Some(a), Some(b)) => *a == *b,
            (None, None) => true,
            _ => false,
        };
        let r = self.executable == other.executable && crate::protocol::same_strings(&self.argv, &other.argv)
            && same_dir;
        proof {
            if r {
                assert(self@.working_dir == other@.working_dir);
            }
        }
        r
    }
}

/// Whether `needle` occurs in `s`.
pub open spec fn spec_contains(s: Seq<char>, needle: Seq<char>) -> bool {
    exists|i: int| 0 <= i <= s.len() - needle.len() && #[trigger] s.subrange(i, i + needle.len()) == needle
}

/// Whether `needle` occurs in `s` at position `i`.
pub open spec fn spec_occurs_at(s: Seq<char>, needle: Seq<char>, i: int) -> bool {
    0 <= i <= s.len() - needle.len() && s.subrange(i, i + needle.len()) == needle
}

fn occurs_at(s: &Vec<char>, needle: &Vec<char>, i: usize) -> (r: bool)
    requires
        i + needle@.len() <= s@.len(),
    ensures
        r == (s@.subrange(i as int, i + needle@.len()) == needle@),
{
    let n = s.len();
    let mut k: usize = 0;
    while k < needle.len()
        invariant
            n == s@.len(),
            i + needle@.len() <= s@.len(),
            k <= needle@.len(),
            forall|j: int| 0 <= j < k ==> s@[i + j] == needle@[j],
        decreases needle@.len() - k,
    {
        if s[i + k] != needle[k] {
            assert(s@.subrange(i as int, i + needle@.len())[k as int] != needle@[k as int]);
            return false;
        }
        k = k + 1;
    }
    assert(s@.subrange(i as int, i + needle@.len()) =~= needle@);
    true
}

/// Whether `needle` occurs in `s`.
pub fn contains(s: &str, needle: &str) -> (r: bool)
    ensures
        r == spec_contains(s@, needle@),
{
    let sv = chars_of(s);
    let nv = chars_of(needle);
    if nv.len() > sv.len() {
        return false;
    }
    let last = sv.len() - nv.len();
    let mut i: usize = 0;
    loop
        invariant
            sv@ == s@,
            nv@ == needle@,
            last == sv@.len() - nv@.len(),
            i <= last,
            forall|j: int| 0 <= j < i ==> #[trigger] s@.subrange(j, j + needle@.len()) != needle@,
        decreases last - i,
    {
        if occurs_at(&sv, &nv, i) {
            return true;
        }
        if i == last {
            return false;
        }
        i = i + 1;
    }
}

/// Captured output and exit status of a command.
#[derive(Debug, Clone)]
pub struct CommandOutput {
    pub exit_code: i32,
    pub stdout: String,
    pub stderr: String,
}

impl CommandOutput {
    /// A successful run printing `stdout`.
    pub fn ok(stdout: String) -> (o: CommandOutput)
        ensures
            o.exit_code == 0,
            o.stdout@ == stdout@,
            o.stderr@ == Seq::<char>::empty(),
    {
        CommandOutput { exit_code: 0, stdout, stderr: String::new() }
    }

    /// A failed run with exit `code` and `stderr`.
    pub fn err(code: i32, stderr: String) -> (o: CommandOutput)
        ensures
            o.exit_code == code,
            o.stdout@ == Seq::<char>::empty(),
            o.stderr@ == stderr@,
    {
        CommandOutput { exit_code: code, stdout: String::new(), stderr }
    }
}

/// Why a command did not give output.
#[derive(Debug, Clone, PartialEq, Eq)]
pub enum CommandError {
    /// The hermetic runner has no output registered for the command.
    NotRegistered,
    /// The command exited with a non-zero status.
    NonZeroExit { code: i32, stderr: String },
    /// The command ran past its `timeout_secs` budget and was killed.
    Timeout,
    /// The command was ended by a signal.
    Interrupted,
}

/// The narrow runner the adapter uses; the live runner and the hermetic one
/// implement it.
pub trait CommandRunner {
    /// Whether this runner keeps a record of the commands handed to it. The
    /// default, no record, promises nothing of [`CommandRunner::spec_issued`].
    open spec fn spec_keeps_record(&self) -> bool {
        false
    }

    /// The commands handed to this runner so far, oldest first, for a runner
    /// that keeps a record: the record each `run` extends.
    open spec fn spec_issued(&self) -> Seq<CommandView> {
        Seq::empty()
    }

    /// Whether `out` is an answer this runner may give to command `c`. The
    /// hermetic runner gives exactly what was registered; the default, for a
    /// runner that asks the host, admits every answer.
    open spec fn spec_answers(&self, c: CommandView, out: Result<CommandOutput, CommandError>) -> bool {
        true
    }

    /// Run one command: the answer is one this runner may give to it, running
    /// changes which answers it may give to nothing, and a runner that keeps a
    /// record logs the command whatever comes back.
    fn run(&mut self, spec: &CommandSpec) -> (r: Result<CommandOutput, CommandError>)
        ensures
            old(self).spec_answers(spec@, r),
            final(self).spec_keeps_record() == old(self).spec_keeps_record(),
            old(self).spec_keeps_record() ==> final(self).spec_issued() == old(self).spec_issued().push(spec@),
            forall|c: CommandView, o: Result<CommandOutput, CommandError>|
                #[trigger] final(self).spec_answers(c, o) == old(self).spec_answers(c, o),
    ;
}

/// A hermetic runner: it answers only commands registered with it and logs
/// every command it is asked to run.
#[derive(Debug)]
pub struct FakeCommandRunner {
    registry: Vec<(CommandSpec, CommandOutput)>,
    invocations: Vec<CommandSpec>,
}

/// The output registered for command `c`, if any (the latest registration).
pub open spec fn spec_registered(registry: Seq<(CommandView, i32, Seq<char>, Seq<char>)>, c: CommandView) -> Option<
    (i32, Seq<char>, Seq<char>),
>
    decreases registry.len(),
{
    if registry.len() == 0 {
        None
    } else if registry.last().0 == c {
        Some((registry.last().1, registry.last().2, registry.last().3))
    } else {
        spec_registered(registry.drop_last(), c)
    }
}

impl FakeCommandRunner {
    pub closed spec fn spec_registry(&self) -> Seq<(CommandView, i32, Seq<char>, Seq<char>)> {
        Seq::new(
            self.registry@.len(),
            |i: int|
                (
                    self.registry@[i].0@,
                    self.registry@[i].1.exit_code,
                    self.registry@[i].1.stdout@,
                    self.registry@[i].1.stderr@,
                ),
        )
    }

    pub closed spec fn spec_invocations(&self) -> Seq<CommandView> {
        Seq::new(self.invocations@.len(), |i: int| self.invocations@[i]@)
    }

    /// A runner with nothing registered.
    pub fn new() -> (r: FakeCommandRunner)
        ensures
            r.spec_registry().len() == 0,
            r.spec_invocations().len() == 0,
    {
        FakeCommandRunner { registry: Vec::new(), invocations: Vec::new() }
    }

    /// Register the output for a command; a later registration of the same
    /// command wins.
    pub fn register(&mut self, spec: CommandSpec, output: CommandOutput)
        ensures
            final(self).spec_registry() == old(self).spec_registry().push(
                (spec@, output.exit_code, output.stdout@, output.stderr@),
            ),
            final(self).spec_invocations() == old(self).spec_invocations(),
    {
        let ghost before = self.spec_registry();
        let ghost inv = self.spec_invocations();
        let ghost entry = (spec@, output.exit_code, output.stdout@, output.stderr@);
        self.registry.push((spec, output));
        assert(self.spec_registry() =~= before.push(entry));
        assert(self.spec_invocations() =~= inv);
    }

    /// Forget every registration and invocation.
    pub fn clear(&mut self)
        ensures
            final(self).spec_registry().len() == 0,
            final(self).spec_invocations().len() == 0,
    {
        self.registry = Vec::new();
        self.invocations = Vec::new();
    }

    /// The commands asked for so far, in order.
    pub fn invocations(&self) -> (r: Vec<CommandSpec>)
        ensures
            r@.len() == self.spec_invocations().len(),
            forall|i: int| 0 <= i < r@.len() ==> (#[trigger] r@[i])@ == self.spec_invocations()[i],
    {
        let mut r: Vec<CommandSpec> = Vec::new();
        let mut i: usize = 0;
        while i < self.invocations.len()
            invariant
                i <= self.invocations@.len(),
                r@.len() == i,
                forall|j: int| 0 <= j < i ==> (#[trigger] r@[j])@ == self.invocations@[j]@,
            decreases self.invocations@.len() - i,
        {
            r.push(copy_spec(&self.invocations[i]));
            i = i + 1;
        }
        r
    }

    /// This runner never executes anything live.
    pub fn forbids_live_commands(&self) -> (r: bool)
        ensures
            r,
    {
        true
    }

    fn lookup(&self, spec: &CommandSpec) -> (r: Option<usize>)
        ensures
            match r {
                Some(i) => i < self.registry@.len() && spec_registered(self.spec_registry(), spec@) == Some(
                    (
                        self.registry@[i as int].1.exit_code,
                        self.registry@[i as int].1.stdout@,
                        self.registry@[i as int].1.stderr@,
                    ),
                ),
                None => spec_registered(self.spec_registry(), spec@).is_none(),
            },
    {
        let ghost rv = self.spec_registry();
        let mut n: usize = self.registry.len();
        assert(rv.subrange(0, n as int) =~= rv);
        while n > 0
            invariant
                n <= self.registry@.len(),
                rv == self.spec_registry(),
                spec_registered(rv, spec@) == spec_registered(rv.subrange(0, n as int), spec@),
            decreases n,
        {
            let ghost pre = rv.subrange(0, n as int);
            assert(pre.drop_last() =~= rv.subrange(0, n - 1));
            if self.registry[n - 1].0.same_as(spec) {
                return Some(n - 1);
            }
            n = n - 1;
        }
        None
    }
}

fn copy_spec(s: &CommandSpec) -> (r: CommandSpec)
    ensures
        r@ == s@,
{
    let mut argv: Vec<String> = Vec::new();
    let mut i: usize = 0;
    while i < s.argv.len()
        invariant
            i <= s.argv@.len(),
            argv@.len() == i,
            forall|j: int| 0 <= j < i ==> (#[trigger] argv@[j])@ == s.argv@[j]@,
        decreases s.argv@.len() - i,
    {
        argv.push(s.argv[i].clone());
        i = i + 1;
    }
    assert(strings_view(argv@) =~= strings_view(s.argv@));
    CommandSpec {
        executable: s.executable.clone(),
        argv,
        working_dir: match &s.working_dir {
            Some(d) => Some(d.clone()),
            None => None,
        },
    }
}

/// The answer the hermetic runner gives to `c` from its registry: `NotRegistered`
/// when nothing is registered, `NonZeroExit` for a registered failure, and the
/// registered output otherwise.
pub open spec fn spec_registry_answer(
    registry: Seq<(CommandView, i32, Seq<char>, Seq<char>)>,
    c: CommandView,
    r: Result<CommandOutput, CommandError>,
) -> bool {
    match spec_registered(registry, c) {
        None => r == Err::<CommandOutput, CommandError>(CommandError::NotRegistered),
        Some((code, out, err)) => if code != 0 {
            r matches Err(CommandError::NonZeroExit { code: c2, stderr: e }) && c2 == code && e@ == err
        } else {
            r matches Ok(o) && o.exit_code == 0 && o.stdout@ == out && o.stderr@ == err
        },
    }
}

impl CommandRunner for FakeCommandRunner {
    open spec fn spec_keeps_record(&self) -> bool {
        true
    }

    open spec fn spec_issued(&self) -> Seq<CommandView> {
        self.spec_invocations()
    }

    open spec fn spec_answers(&self, c: CommandView, out: Result<CommandOutput, CommandError>) -> bool {
        spec_registry_answer(self.spec_registry(), c, out)
    }

    /// Log the command, then answer with its registered output: `NotRegistered`
    /// when there is none, `NonZeroExit` when it records a failure.
    fn run(&mut self, spec: &CommandSpec) -> (r: Result<CommandOutput, CommandError>)
        ensures
            final(self).spec_invocations() == old(self).spec_invocations().push(spec@),
            final(self).spec_registry() == old(self).spec_registry(),
            match spec_registered(old(self).spec_registry(), spec@) {
                None => r == Err::<CommandOutput, CommandError>(CommandError::NotRegistered),
                Some((code, out, err)) => if code != 0 {
                    r matches Err(CommandError::NonZeroExit { code: c, stderr: e }) && c == code && e@ == err
                } else {
                    r matches Ok(o) && o.exit_code == 0 && o.stdout@ == out && o.stderr@ == err
                },
            },
    {
        let ghost inv = self.spec_invocations();
        let ghost reg = self.spec_registry();
        self.invocations.push(copy_spec(spec));
        assert(self.spec_invocations() =~= inv.push(spec@));
        assert(self.spec_registry() =~= reg);
        match self.lookup(spec) {
            None => Err(CommandError::NotRegistered),
            Some(i) => {
                let out = &self.registry[i].1;
                if out.exit_code != 0 {
                    Err(CommandError::NonZeroExit { code: out.exit_code, stderr: out.stderr.clone() })
                } else {
                    Ok(CommandOutput { exit_code: 0, stdout: out.stdout.clone(), stderr: out.stderr.clone() })
                }
            },
        }
    }
}

} // verus!
