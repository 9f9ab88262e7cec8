//! Endpoint resolution: an endpoint token is a network socket address or an
//! absolute path of a Unix-domain socket.

use vstd::prelude::*;

verus! {

/// The byte `/`, which starts an absolute path.
pub const SLASH: u8 = 0x2f;

/// A network socket address as plain values.
#[derive(Debug, Clone, Copy, PartialEq, Eq)]
pub enum NetAddr {
    V4 { octets: [u8; 4], port: u16 },
    V6 { segments: [u16; 8], port: u16, flowinfo: u32, scope_id: u32 },
}

/// The transport an endpoint token stands for.
#[derive(Debug, Clone, PartialEq, Eq)]
pub enum ConnectionType {
    /// A TCP endpoint.
    Ip(NetAddr),
    /// A Unix-domain socket at this absolute path (its bytes).
    Unix(Vec<u8>),
}

/// A path is absolute when it starts at the root.
pub open spec fn is_absolute(token: Seq<u8>) -> bool {
    token.len() > 0 && token[0] == SLASH
}

/// Resolves the token `token`; `addr` is what the token reads as when parsed
/// as a socket address, if it does. An address wins; else an absolute path
/// names a Unix-domain socket; anything else cannot be used.
pub fn determine_connection_type(token: &[u8], addr: Option<NetAddr>) -> (r: Option<
    ConnectionType,
>)
    ensures
        addr is Some ==> r == Some(ConnectionType::Ip(addr->0)),
        addr is None && is_absolute(token@) ==> r is Some && r->0 is Unix && r->0->Unix_0@
            == token@,
        addr is None && !is_absolute(token@) ==> r is None,
{
    match addr {
        Some(a) => Some(ConnectionType::Ip(a)),
        None => {
            if token.len() > 0 && token[0] == SLASH {
                Some(ConnectionType::Unix(copy_bytes(token)))
            } else {
                None
            }
        },
    }
}

/// A fresh `Vec` holding the bytes of `s`.
pub fn copy_bytes(s: &[u8]) -> (r: Vec<u8>)
    ensures
        r@ == s@,
{
    let mut out: Vec<u8> = Vec::new();
    let mut i: usize = 0;
    while i < s.len()
        invariant
            i <= s@.len(),
            out@ == s@.subrange(0, i as int),
        decreases s@.len() - i,
    {
        out.push(s[i]);
        i = i + 1;
        assert(out@ =~= s@.subrange(0, i as int));
    }
    assert(s@.subrange(0, i as int) =~= s@);
    out
}

} // verus!
