//! The legacy Kasa transport (port 9999): what the user is told when a
//! device cannot be reached, and how a TCP reply announces its length.

use vstd::prelude::*;
use crate::text::{append_chars, decimal, decimal_chars};

verus! {

/// The answer when connecting to `addr` timed out after `seconds`.
pub open spec fn connect_timeout_message(addr: Seq<char>, seconds: u64) -> Seq<char> {
    "Timed out connecting to "@ + addr + " after "@ + decimal(seconds as nat)
        + "s. The device may be offline or unreachable."@
}

/// The answer when connecting to `addr` timed out after `seconds`.
pub fn connect_timeout_error(addr: &str, seconds: u64) -> (m: String)
    ensures
        m@ == connect_timeout_message(addr@, seconds),
{
    let mut m = String::from_str("Timed out connecting to ");
    m.append(addr);
    m.append(" after ");
    append_chars(&mut m, &decimal_chars(seconds));
    m.append("s. The device may be offline or unreachable.");
    m
}

/// The kind of a failed connection, as the operating system reports it
/// (the kinds of std's `io::ErrorKind` that the hint tells apart).
#[derive(Debug, Clone, Copy, PartialEq, Eq, Structural)]
pub enum IoKind {
    ConnectionRefused,
    HostUnreachable,
    NetworkUnreachable,
    NotConnected,
    AddrNotAvailable,
    TimedOut,
    Other,
}

/// The hint added to a connection failure of kind `k`.
pub open spec fn connect_hint(k: IoKind) -> Seq<char> {
    match k {
        IoKind::ConnectionRefused | IoKind::HostUnreachable | IoKind::NetworkUnreachable
        | IoKind::NotConnected | IoKind::AddrNotAvailable =>
            "The device may be offline, unreachable, or on the wrong network."@,
        IoKind::TimedOut => "The device may be offline or not responding."@,
        IoKind::Other => "The device may be offline or unreachable."@,
    }
}

/// The answer when connecting to `addr` failed with an error of kind `kind`
/// whose text is `detail`.
pub open spec fn connect_error_message(addr: Seq<char>, kind: IoKind, detail: Seq<char>) -> Seq<char> {
    "Could not connect to "@ + addr + ": "@ + detail + ". "@ + connect_hint(kind)
}

/// The answer when connecting to `addr` failed.
pub fn connect_error(addr: &str, kind: IoKind, detail: &str) -> (m: String)
    ensures
        m@ == connect_error_message(addr@, kind, detail@),
{
    let mut m = String::from_str("Could not connect to ");
    m.append(addr);
    m.append(": ");
    m.append(detail);
    m.append(". ");
    match kind {
        IoKind::ConnectionRefused | IoKind::HostUnreachable | IoKind::NetworkUnreachable
        | IoKind::NotConnected | IoKind::AddrNotAvailable => {
            m.append("The device may be offline, unreachable, or on the wrong network.");
        },
        IoKind::TimedOut => {
            m.append("The device may be offline or not responding.");
        },
        IoKind::Other => {
            m.append("The device may be offline or unreachable.");
        },
    }
    m
}

} // verus!
