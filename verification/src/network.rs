//! Choosing the LAN addresses the server is announced under.
use vstd::prelude::*;

use crate::text::str_eq;

verus! {

/// Whether the local address of an outgoing socket is a usable LAN address
/// (not the unspecified or the loopback address).
pub open spec fn usable_local_ip(ip: Seq<char>) -> bool {
    ip != "0.0.0.0"@ && ip != "127.0.0.1"@
}

/// The LAN addresses: those the host name resolves to (non-loopback IPv4),
/// or, when there are none, the local address of an outgoing socket if it
/// is usable.
pub fn lan_addresses(resolved: Vec<String>, socket_ip: Option<String>) -> (r: Vec<String>)
    ensures
        resolved@.len() > 0 ==> r@ == resolved@,
        resolved@.len() == 0 ==> match socket_ip {
            Some(ip) => if usable_local_ip(ip@) { r@.len() == 1 && r@[0]@ == ip@ } else { r@.len() == 0 },
            None => r@.len() == 0,
        },
{
    if resolved.len() > 0 {
        return resolved;
    }
    let mut r: Vec<String> = Vec::new();
    match socket_ip {
        Some(ip) => {
            if !str_eq(ip.as_str(), "0.0.0.0") && !str_eq(ip.as_str(), "127.0.0.1") {
                r.push(ip);
            }
        },
        None => {},
    }
    r
}

} // verus!
