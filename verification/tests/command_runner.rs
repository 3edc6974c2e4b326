use agentbed::nix::command_runner::{
    exec_policy, CommandError, CommandOutput, CommandRunner, CommandSpec, FakeCommandRunner,
};
use agentbed::nix::promotion::{from_command_error, PromotionError};
use agentbed::protocol::ConfigFileChange;

#[test]
fn command_runner_declares_env_stdin_and_timeout_policy() {
    let policy = exec_policy();
    assert!(policy.env_clear, "missing env policy");
    assert!(policy.stdin_null, "missing stdin policy");
    assert!(policy.timeout_secs > 0, "missing timeout budget");
}

#[test]
fn command_runner_maps_timeout_and_interruption() {
    assert_eq!(
        from_command_error(CommandError::Timeout),
        PromotionError::CommandFailed { code: -1, stderr: "timeout".to_owned() }
    );
    assert_eq!(
        from_command_error(CommandError::Interrupted),
        PromotionError::CommandFailed { code: -2, stderr: "interrupted".to_owned() }
    );
}

#[test]
fn the_fake_runner_answers_only_registered_commands_and_logs_every_call() {
    let mut runner = FakeCommandRunner::new();
    runner.register(CommandSpec::etc_git_head(), CommandOutput::ok("abc\n".to_owned()));
    runner.register(CommandSpec::config_digest(), CommandOutput::err(3, "boom".to_owned()));
    assert_eq!(runner.run(&CommandSpec::etc_git_head()).unwrap().stdout, "abc\n");
    assert_eq!(
        runner.run(&CommandSpec::config_digest()).unwrap_err(),
        CommandError::NonZeroExit { code: 3, stderr: "boom".to_owned() }
    );
    assert_eq!(runner.run(&CommandSpec::sync_paths()).unwrap_err(), CommandError::NotRegistered);
    assert_eq!(runner.invocations().len(), 3);
    // A later registration wins.
    runner.register(CommandSpec::config_digest(), CommandOutput::ok("x".to_owned()));
    assert_eq!(runner.run(&CommandSpec::config_digest()).unwrap().stdout, "x");
    runner.clear();
    assert!(runner.invocations().is_empty());
    assert!(runner.forbids_live_commands());
}

#[test]
fn commands_use_absolute_executables_and_exact_arguments() {
    let eval = CommandSpec::nix_eval_candidate(&vec![ConfigFileChange {
        path: "/etc/nixos/a.nix".to_owned(),
        content: "{ }".to_owned(),
    }]);
    assert_eq!(eval.executable, "/run/current-system/sw/bin/nix");
    assert_eq!(
        eval.argv,
        vec!["/run/current-system/sw/bin/nix", "eval", "--raw", "/etc/nixos#agentbed.candidate", "--argstr", "/etc/nixos/a.nix", "{ }"]
    );
    assert_eq!(eval.working_dir.as_deref(), Some("/etc/nixos"));
    let boot = CommandSpec::switch_to_configuration_boot("/nix/store/abc-system");
    assert_eq!(boot.executable, "/nix/store/abc-system/bin/switch-to-configuration");
    assert_eq!(boot.argv, vec!["/nix/store/abc-system/bin/switch-to-configuration", "boot"]);
    assert!(CommandSpec::sync_paths().argv_contains("/boot"));
    assert!(CommandSpec::sync_paths().argv_contains("/nix/var/nix/profiles/system"));
    assert!(!CommandSpec::read_boot_default().argv_contains("nix-env"));
}
