//! Verified core of a local OAuth2 token daemon.
//!
//! The library holds the daemon's logic: the per-account token state
//! machine, the capability-guarded account table, the PKCE authorization
//! flow, the HTTP-callback validation, the refresher's scheduling rules and
//! the IPC command handling.  All instants are whole seconds of a monotonic
//! clock, represented as `u64`; the unverified shell around the library
//! converts between `std::time::Instant` and these ticks, performs the
//! actual socket and HTTP I/O, and runs the threads.

use vstd::prelude::*;

pub mod account;
pub mod authflow;
pub mod callback;
pub mod encode;
pub mod ipc;
pub mod laws;
pub mod outside;
pub mod refresh;
pub mod state;

verus! {

/// The view of an ASCII string: one character per byte.
pub open spec fn chars_of_bytes(s: Seq<u8>) -> Seq<char> {
    Seq::new(s.len(), |i: int| s[i] as char)
}

/// The bytes of an ASCII string: one byte per character.
pub open spec fn bytes_of_chars(s: Seq<char>) -> Seq<u8> {
    Seq::new(s.len(), |i: int| s[i] as u8)
}

/// Leaf name of the daemon's IPC socket inside the cache directory.
pub open spec fn spec_sock_leaf() -> Seq<char> {
    "pizauth.sock"@
}

pub open spec fn spec_sock_path(cache_path: Seq<char>) -> Seq<char> {
    if cache_path.len() > 0 && cache_path.last() == '/' {
        cache_path + spec_sock_leaf()
    } else {
        cache_path + "/"@ + spec_sock_leaf()
    }
}

/// Path of the daemon's IPC socket: the cache directory with the socket's
/// leaf name appended.
pub fn sock_path(cache_path: &str) -> (r: String)
    ensures
        r@ == spec_sock_path(cache_path@),
{
    let n = cache_path.unicode_len();
    let mut p = cache_path.to_owned();
    if n == 0 || cache_path.get_char(n - 1) != '/' {
        p.append("/");
    }
    p.append("pizauth.sock");
    p
}

} // verus!
