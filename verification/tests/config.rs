use agentbed::config::{parse_args, required_paths, BrokerConfig, CliOutcome, USAGE};

fn args(v: &[&str]) -> Vec<String> {
    v.iter().map(|s| (*s).to_owned()).collect()
}

fn run(v: &[&str]) -> BrokerConfig {
    match parse_args(&args(v)).expect("parses") {
        CliOutcome::Run(c) => c,
        CliOutcome::Help => panic!("not help"),
    }
}

#[test]
fn defaults_hold_when_nothing_is_given() {
    let c = BrokerConfig::default();
    assert_eq!(c.socket_path, "/run/agentbed/broker.sock");
    assert_eq!(c.token_store_path, None);
    assert_eq!(c.manifest_dir, None);
    assert_eq!(c.state_dir, None);
    assert!(c.allowed_peer_uids.is_empty());
    assert_eq!(c.max_connections, 32);
    assert_eq!(c.max_requests_per_connection, 1024);
    assert_eq!(c.read_timeout_secs, 15);
    assert_eq!(c.write_timeout_secs, 15);
}

#[test]
fn flags_set_their_fields() {
    let c = run(&["--socket", "/tmp/b.sock", "--tokens", "t.json", "--manifests", "m", "--allow-peer-uid", "7", "--allow-peer-uid", "8"]);
    assert_eq!(c.socket_path, "/tmp/b.sock");
    assert_eq!(c.token_store_path.as_deref(), Some("t.json"));
    assert_eq!(c.manifest_dir.as_deref(), Some("m"));
    assert_eq!(c.allowed_peer_uids, vec![7, 8]);
    assert_eq!(required_paths(&c), Ok(("t.json".to_owned(), "m".to_owned())));
}

#[test]
fn help_and_errors() {
    assert!(matches!(parse_args(&args(&["--tokens", "t", "-h"])), Ok(CliOutcome::Help)));
    assert_eq!(parse_args(&args(&["--bogus"])).err(), Some(format!("unknown argument: --bogus\n\n{USAGE}")));
    assert_eq!(parse_args(&args(&["--socket"])).err().as_deref(), Some("--socket requires a value"));
    assert_eq!(parse_args(&args(&["--allow-peer-uid", "x"])).err().as_deref(), Some("invalid uid: x"));
    assert_eq!(parse_args(&args(&["--allow-peer-uid", "4294967296"])).err().as_deref(), Some("invalid uid: 4294967296"));
    let c = run(&[]);
    assert_eq!(required_paths(&c).err(), Some(format!("--tokens is required\n\n{USAGE}")));
    let c = run(&["--tokens", "t"]);
    assert_eq!(required_paths(&c).err(), Some(format!("--manifests is required\n\n{USAGE}")));
}
