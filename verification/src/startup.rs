//! Where the server listens: the command line and the configuration
//! together.
use vstd::prelude::*;

use crate::yaml::{YamlNode, Yaml, spec_get_str, spec_get_bool, spec_get_i64, get_str, get_bool, get_i64};

verus! {

/// The address the server binds.
#[derive(Debug)]
pub struct Endpoint {
    pub host: String,
    pub port: u16,
    pub lan_access: bool,
}

/// The endpoint from the configuration and the command line: LAN access
/// when either asks for it, then on all interfaces; else the configured
/// host, or `127.0.0.1` when none is set. A port given on the command line
/// (non-zero) wins over the configured one (taken modulo 2^16, as a `u16`).
pub open spec fn spec_endpoint(cfg: Yaml, cli_port: u16, cli_lan: bool) -> (Seq<char>, u16, bool) {
    let lan = cli_lan || spec_get_bool(cfg, "server"@, "lan_access"@);
    let host = if lan {
        "0.0.0.0"@
    } else if spec_get_str(cfg, "server"@, "host"@).len() == 0 {
        "127.0.0.1"@
    } else {
        spec_get_str(cfg, "server"@, "host"@)
    };
    let port = if cli_port > 0 { cli_port } else { spec_get_i64(cfg, "server"@, "port"@, 8730) as u16 };
    (host, port, lan)
}

pub fn resolve_endpoint(cfg: &YamlNode, cli_port: u16, cli_lan: bool) -> (r: Endpoint)
    ensures
        (r.host@, r.port, r.lan_access) == spec_endpoint(cfg@, cli_port, cli_lan),
{
    let cfg_host = get_str(cfg, "server", "host");
    let cfg_port = get_i64(cfg, "server", "port", 8730);
    let cfg_lan = get_bool(cfg, "server", "lan_access");
    let lan = cli_lan || cfg_lan;
    let host = if lan {
        String::from_str("0.0.0.0")
    } else if cfg_host.is_empty() {
        String::from_str("127.0.0.1")
    } else {
        String::from_str(cfg_host)
    };
    let port: u16 = if cli_port > 0 {
        cli_port
    } else {
        #[verifier::truncate]
        (cfg_port as u16)
    };
    Endpoint { host, port, lan_access: lan }
}

} // verus!
