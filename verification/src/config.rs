//! Broker configuration and its command line.
//!
//! The socket is reachable only by a listed set of uids, and that set gates
//! the channel, never a call.

use crate::storage::files::{parse_u64, spec_parse_u64};
use vstd::prelude::*;
use vstd::string::StringExecFns;

verus! {

/// Runtime settings.
#[derive(Debug, Clone)]
pub struct BrokerConfig {
    /// Where to bind the Unix socket.
    pub socket_path: String,
    /// JSON token store.
    pub token_store_path: Option<String>,
    /// Directory of agent manifests.
    pub manifest_dir: Option<String>,
    /// Durable broker state (WAL, events, idempotency).
    pub state_dir: Option<String>,
    /// Peer uids permitted to connect at all; empty means this process's uid.
    pub allowed_peer_uids: Vec<u32>,
    /// Concurrent connections served before new ones are refused.
    pub max_connections: usize,
    /// Requests accepted on one connection before it is closed.
    pub max_requests_per_connection: u32,
    /// Seconds a connection may stall mid-frame before it is dropped.
    pub read_timeout_secs: u64,
    /// Seconds a write may block before the connection is dropped.
    pub write_timeout_secs: u64,
}

/// The command line's usage line.
pub const USAGE: &'static str = "usage: agentbed-broker --tokens <file> --manifests <dir> [--socket <path>] [--allow-peer-uid <uid>]";

/// What the command line sets.
pub struct CliView {
    pub socket_path: Seq<char>,
    pub token_store_path: Option<Seq<char>>,
    pub manifest_dir: Option<Seq<char>>,
    pub allowed_peer_uids: Seq<u32>,
}

pub open spec fn spec_default_cli() -> CliView {
    CliView {
        socket_path: "/run/agentbed/broker.sock"@,
        token_store_path: None,
        manifest_dir: None,
        allowed_peer_uids: Seq::empty(),
    }
}

impl BrokerConfig {
    pub open spec fn cli_view(&self) -> CliView {
        CliView {
            socket_path: self.socket_path@,
            token_store_path: match self.token_store_path {
                Some(p) => Some(p@),
                None => None,
            },
            manifest_dir: match self.manifest_dir {
                Some(p) => Some(p@),
                None => None,
            },
            allowed_peer_uids: self.allowed_peer_uids@,
        }
    }
}

impl Default for BrokerConfig {
    /// The socket at `/run/agentbed/broker.sock`, no store or manifest
    /// directory yet, this process's uid only, 32 connections of 1024
    /// requests, 15-second read and write timeouts.
    fn default() -> (c: BrokerConfig)
        ensures
            c.cli_view() == spec_default_cli(),
            c.state_dir.is_none(),
            c.max_connections == 32,
            c.max_requests_per_connection == 1024,
            c.read_timeout_secs == 15,
            c.write_timeout_secs == 15,
    {
        let c = BrokerConfig {
            socket_path: "/run/agentbed/broker.sock".to_owned(),
            token_store_path: None,
            manifest_dir: None,
            state_dir: None,
            allowed_peer_uids: Vec::new(),
            max_connections: 32,
            max_requests_per_connection: 1024,
            read_timeout_secs: 15,
            write_timeout_secs: 15,
        };
        assert(c.cli_view().allowed_peer_uids =~= Seq::<u32>::empty());
        c
    }
}

/// What the command line asks for.
#[derive(Debug)]
pub enum CliOutcome {
    /// Print the usage line and stop.
    Help,
    /// Run with this configuration.
    Run(BrokerConfig),
}

/// What the command line asks for, in views.
pub enum CliVerdict {
    Help,
    Run(CliView),
    Fail(Seq<char>),
}

/// `u32::from_str`.
pub open spec fn spec_parse_u32(s: Seq<char>) -> Option<u32> {
    match spec_parse_u64(s) {
        Some(v) => if v <= u32::MAX {
            Some(v as u32)
        } else {
            None
        },
        None => None,
    }
}

/// Reading the arguments from position `i` on, with `cfg` set so far.
pub open spec fn spec_parse_from(args: Seq<Seq<char>>, i: int, cfg: CliView) -> CliVerdict
    decreases args.len() - i,
{
    if i >= args.len() || i < 0 {
        CliVerdict::Run(cfg)
    } else {
        let a = args[i];
        if a == "--socket"@ || a == "--tokens"@ || a == "--manifests"@ || a == "--allow-peer-uid"@ {
            if i + 1 >= args.len() {
                CliVerdict::Fail(a + " requires a value"@)
            } else {
                let v = args[i + 1];
                if a == "--socket"@ {
                    spec_parse_from(args, i + 2, CliView { socket_path: v, ..cfg })
                } else if a == "--tokens"@ {
                    spec_parse_from(args, i + 2, CliView { token_store_path: Some(v), ..cfg })
                } else if a == "--manifests"@ {
                    spec_parse_from(args, i + 2, CliView { manifest_dir: Some(v), ..cfg })
                } else {
                    match spec_parse_u32(v) {
                        Some(uid) => spec_parse_from(
                            args,
                            i + 2,
                            CliView { allowed_peer_uids: cfg.allowed_peer_uids.push(uid), ..cfg },
                        ),
                        None => CliVerdict::Fail("invalid uid: "@ + v),
                    }
                }
            }
        } else if a == "--help"@ || a == "-h"@ {
            CliVerdict::Help
        } else {
            CliVerdict::Fail("unknown argument: "@ + a + "\n\n"@ + USAGE@)
        }
    }
}

fn is(a: &String, lit: &str) -> (r: bool)
    ensures
        r == (a@ == lit@),
{
    *a == lit.to_owned()
}

/// Parse the command line (without the program name): `--socket <path>`,
/// `--tokens <file>`, `--manifests <dir>`, `--allow-peer-uid <uid>` (any
/// number of times) and `--help`; anything else is refused.
pub fn parse_args(args: &Vec<String>) -> (r: Result<CliOutcome, String>)
    ensures
        match spec_parse_from(args@.map_values(|s: String| s@), 0, spec_default_cli()) {
            CliVerdict::Help => r matches Ok(CliOutcome::Help),
            CliVerdict::Run(v) => r matches Ok(CliOutcome::Run(c)) && c.cli_view() == v && c.state_dir.is_none()
                && c.max_connections == 32 && c.max_requests_per_connection == 1024,
            CliVerdict::Fail(m) => r matches Err(msg) && msg@ == m,
        },
{
    let ghost av = args@.map_values(|s: String| s@);
    let mut config = BrokerConfig::default();
    let mut i: usize = 0;
    while i < args.len()
        invariant
            av == args@.map_values(|s: String| s@),
            i <= args@.len(),
            spec_parse_from(av, 0, spec_default_cli()) == spec_parse_from(av, i as int, config.cli_view()),
            config.state_dir.is_none(),
            config.max_connections == 32,
            config.max_requests_per_connection == 1024,
        decreases args@.len() - i,
    {
        let a = &args[i];
        assert(av[i as int] == a@);
        if is(a, "--socket") || is(a, "--tokens") || is(a, "--manifests") || is(a, "--allow-peer-uid") {
            if i + 1 >= args.len() {
                let mut msg = a.clone();
                msg.append(" requires a value");
                return Err(msg);
            }
            let v = &args[i + 1];
            assert(av[i + 1] == v@);
            if is(a, "--socket") {
                config.socket_path = v.clone();
            } else if is(a, "--tokens") {
                config.token_store_path = Some(v.clone());
            } else if is(a, "--manifests") {
                config.manifest_dir = Some(v.clone());
            } else {
                match parse_u64(v.as_str()) {
                    Some(n) if n <= 0xFFFF_FFFF => {
                        let ghost before = config.allowed_peer_uids@;
                        config.allowed_peer_uids.push(n as u32);
                    },
                    _ => {
                        let mut msg = "invalid uid: ".to_owned();
                        msg.append(v.as_str());
                        return Err(msg);
                    },
                }
            }
            i = i + 2;
        } else if is(a, "--help") || is(a, "-h") {
            return Ok(CliOutcome::Help);
        } else {
            let mut msg = "unknown argument: ".to_owned();
            msg.append(a.as_str());
            msg.append("\n\n");
            msg.append(USAGE);
            return Err(msg);
        }
    }
    Ok(CliOutcome::Run(config))
}

/// The token store and manifest directory a run needs; each is required.
pub fn required_paths(config: &BrokerConfig) -> (r: Result<(String, String), String>)
    ensures
        match (config.token_store_path, config.manifest_dir) {
            (None, _) => r matches Err(m) && m@ == "--tokens is required\n\n"@ + USAGE@,
            (Some(_), None) => r matches Err(m) && m@ == "--manifests is required\n\n"@ + USAGE@,
            (Some(t), Some(d)) => r matches Ok((a, b)) && a@ == t@ && b@ == d@,
        },
{
    let tokens = match &config.token_store_path {
        None => {
            let mut m = "--tokens is required\n\n".to_owned();
            m.append(USAGE);
            return Err(m);
        },
        Some(t) => t.clone(),
    };
    let manifests = match &config.manifest_dir {
        None => {
            let mut m = "--manifests is required\n\n".to_owned();
            m.append(USAGE);
            return Err(m);
        },
        Some(d) => d.clone(),
    };
    Ok((tokens, manifests))
}

} // verus!
