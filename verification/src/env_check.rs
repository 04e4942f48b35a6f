//! The startup check of the standard-library source root.
//!
//! The root is configured as a platform-delimited list of paths; only the
//! first entry is consulted. It must exist and must contain a standard
//! library subdirectory. The filesystem probes themselves are I/O and happen
//! outside the library; this module selects the first entry and decides the
//! verdict from the probe results.

use vstd::prelude::*;

use crate::text::copy_range;

verus! {

/// The path-list delimiter, a colon.
pub open spec fn path_sep() -> u8 {
    58u8
}

/// Index of the first path delimiter, or `s.len()` if none.
pub open spec fn first_delim(s: Seq<u8>, i: int) -> int
    decreases s.len() - i,
{
    if i < 0 || i >= s.len() {
        s.len() as int
    } else if s[i] == path_sep() {
        i
    } else {
        first_delim(s, i + 1)
    }
}

pub proof fn lemma_first_delim(s: Seq<u8>, i: int)
    requires
        0 <= i <= s.len(),
    ensures
        i <= first_delim(s, i) <= s.len(),
        forall|j: int| i <= j < first_delim(s, i) ==> s[j] != path_sep(),
        first_delim(s, i) < s.len() ==> s[first_delim(s, i)] == path_sep(),
    decreases s.len() - i,
{
    if i < s.len() && s[i] != path_sep() {
        lemma_first_delim(s, i + 1);
    }
}

/// The first entry of a delimited path list: the bytes before the first
/// delimiter, or the whole list if it holds none.
pub open spec fn first_entry(s: Seq<u8>) -> Seq<u8> {
    s.take(first_delim(s, 0))
}

/// Select the first entry of a delimited path list.
pub fn first_src_path(paths: &Vec<u8>) -> (r: Vec<u8>)
    ensures
        r@ == first_entry(paths@),
{
    proof {
        lemma_first_delim(paths@, 0);
    }
    let mut j: usize = 0;
    while j < paths.len()
        invariant
            0 <= j <= paths@.len(),
            first_delim(paths@, 0) == first_delim(paths@, j as int),
        decreases paths@.len() - j,
    {
        if paths[j] == 58u8 {
            return copy_range(paths, 0, j);
        }
        j = j + 1;
    }
    copy_range(paths, 0, j)
}

/// The verdict of the startup check.
#[derive(Clone, Copy, Debug, PartialEq, Eq, Structural)]
pub enum SrcRootStatus {
    /// The configuration variable is not set at all.
    Unset,
    /// The first configured path does not exist.
    RootMissing,
    /// The first configured path has no standard-library subdirectory.
    StdlibMissing,
    /// The root is usable; queries may run.
    Usable,
}

/// Decide the startup verdict from whether the variable is set, whether its
/// first entry exists, and whether that entry holds the standard-library
/// subdirectory.
pub fn check_src_root(var_set: bool, root_exists: bool, stdlib_exists: bool) -> (r: SrcRootStatus)
    ensures
        r == (if !var_set {
            SrcRootStatus::Unset
        } else if !root_exists {
            SrcRootStatus::RootMissing
        } else if !stdlib_exists {
            SrcRootStatus::StdlibMissing
        } else {
            SrcRootStatus::Usable
        }),
{
    if !var_set {
        SrcRootStatus::Unset
    } else if !root_exists {
        SrcRootStatus::RootMissing
    } else if !stdlib_exists {
        SrcRootStatus::StdlibMissing
    } else {
        SrcRootStatus::Usable
    }
}

} // verus!
