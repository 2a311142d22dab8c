//! Caseless, normalization-tolerant path resolution with an owned-string
//! boundary layer.
//!
//! The resolver walks a relative path component by component against the real
//! directory tree, optionally accepting entries whose names differ from the
//! request only in letter case or in Unicode normalization form. The boundary
//! layer packages strings and lists of strings for a caller in another memory
//! domain, with null reserved as a sentinel distinct from a valid empty value.
use vstd::prelude::*;

pub mod boundary;
pub mod launcher;
pub mod paths;
pub mod resolver;

verus! {

/// A character sequence contains no NUL, so it can carry a C-style terminator.
pub open spec fn nul_free(s: Seq<char>) -> bool {
    forall|i: int| 0 <= i < s.len() ==> s[i] != '\0'
}

/// The boundary form of an optional enumerated value: the value itself where
/// one was determined, and `-1` — reserved for absence, which is why the
/// value must be non-negative — where none was.
pub fn version_code(version: Option<i32>) -> (r: i32)
    requires
        version is Some ==> version.unwrap() >= 0,
    ensures
        (r == -1) <==> (version is None),
        version is Some ==> r == version.unwrap(),
{
    match version {
        Some(v) => v,
        None => -1,
    }
}

} // verus!
