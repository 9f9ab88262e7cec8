//! The listener set's decisions. A daemon serves on exactly the requested
//! endpoints or not at all, so every token must resolve before anything is
//! bound; on shutdown the Unix-domain socket files it bound are removed.

use vstd::prelude::*;
use crate::endpoint::{ConnectionType, copy_bytes};

verus! {

/// The first index whose token did not resolve, if any.
pub fn first_unresolved(resolved: &Vec<Option<ConnectionType>>) -> (r: Option<usize>)
    ensures
        match r {
            Some(i) => i < resolved@.len() && resolved@[i as int] is None && forall|j: int|
                0 <= j < i ==> (#[trigger] resolved@[j]) is Some,
            None => forall|j: int| 0 <= j < resolved@.len() ==> (#[trigger] resolved@[j]) is Some,
        },
{
    let mut i: usize = 0;
    while i < resolved.len()
        invariant
            i <= resolved@.len(),
            forall|j: int| 0 <= j < i ==> (#[trigger] resolved@[j]) is Some,
        decreases resolved@.len() - i,
    {
        if resolved[i].is_none() {
            return Some(i);
        }
        i = i + 1;
    }
    None
}

/// The paths of the Unix-domain sockets among the resolved endpoints, in
/// order.
pub open spec fn unix_paths_spec(c: Seq<Option<ConnectionType>>) -> Seq<Seq<u8>>
    decreases c.len(),
{
    if c.len() == 0 {
        seq![]
    } else {
        let rest = unix_paths_spec(c.drop_last());
        match c.last() {
            Some(ConnectionType::Unix(p)) => rest.push(p@),
            _ => rest,
        }
    }
}

/// The socket files to remove when the daemon shuts down.
pub fn unix_paths(resolved: &Vec<Option<ConnectionType>>) -> (r: Vec<Vec<u8>>)
    ensures
        r@.map_values(|x: Vec<u8>| x@) == unix_paths_spec(resolved@),
{
    let mut out: Vec<Vec<u8>> = Vec::new();
    let mut i: usize = 0;
    while i < resolved.len()
        invariant
            i <= resolved@.len(),
            out@.map_values(|x: Vec<u8>| x@) == unix_paths_spec(resolved@.subrange(0, i as int)),
        decreases resolved@.len() - i,
    {
        let ghost before = out@;
        assert(resolved@.subrange(0, i + 1).drop_last() =~= resolved@.subrange(0, i as int));
        match &resolved[i] {
            Some(ConnectionType::Unix(p)) => {
                out.push(copy_bytes(p.as_slice()));
                assert(out@.map_values(|x: Vec<u8>| x@) =~= before.map_values(|x: Vec<u8>| x@).push(
                    p@,
                ));
            },
            _ => {},
        }
        i = i + 1;
    }
    assert(resolved@.subrange(0, i as int) =~= resolved@);
    out
}

} // verus!
