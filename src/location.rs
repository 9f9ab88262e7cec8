//! Where the daemon keeps its record: a directory named after the
//! application under the user's configuration (or runtime) directory, or a
//! hidden one under the home directory.

use vstd::prelude::*;
use crate::endpoint::SLASH;
use crate::record::append_bytes;

verus! {

/// The byte `.`.
pub const DOT: u8 = 0x2e;

/// `dir` with the relative component `name` pushed onto it.
pub open spec fn pushed(dir: Seq<u8>, name: Seq<u8>) -> Seq<u8> {
    if dir.len() == 0 || dir.last() == SLASH {
        dir + name
    } else {
        dir + seq![SLASH] + name
    }
}

/// The application directory: `name` under `base` (the configuration or
/// runtime directory), else `.name` under `home`; none without either.
pub open spec fn app_dir_spec(base: Option<Seq<u8>>, home: Option<Seq<u8>>, name: Seq<u8>) -> Option<
    Seq<u8>,
> {
    match base {
        Some(b) => Some(pushed(b, name)),
        None => match home {
            Some(h) => Some(pushed(h, seq![DOT] + name)),
            None => None,
        },
    }
}

/// Pushes the relative component `name` onto the path `dir`.
pub fn push_component(dir: &[u8], name: &[u8]) -> (r: Vec<u8>)
    ensures
        r@ == pushed(dir@, name@),
{
    let mut out: Vec<u8> = Vec::new();
    append_bytes(&mut out, dir);
    assert(out@ =~= dir@);
    if dir.len() > 0 && dir[dir.len() - 1] != SLASH {
        out.push(SLASH);
    }
    append_bytes(&mut out, name);
    out
}

/// The application directory for the application `name`, given the
/// configuration-or-runtime directory and the home directory that were found.
pub fn application_dir_from(base: Option<&[u8]>, home: Option<&[u8]>, name: &[u8]) -> (r: Option<
    Vec<u8>,
>)
    ensures
        match r {
            Some(p) => app_dir_spec(
                match base {
                    Some(b) => Some(b@),
                    None => None,
                },
                match home {
                    Some(h) => Some(h@),
                    None => None,
                },
                name@,
            ) == Some(p@),
            None => base is None && home is None,
        },
{
    match base {
        Some(b) => Some(push_component(b, name)),
        None => match home {
            Some(h) => {
                let mut hidden: Vec<u8> = vec![DOT];
                append_bytes(&mut hidden, name);
                Some(push_component(h, hidden.as_slice()))
            },
            None => None,
        },
    }
}

} // verus!
