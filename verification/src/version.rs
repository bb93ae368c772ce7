//! The two versions of the script format.

use vstd::prelude::*;

verus! {

/// The version of the script format.
#[derive(Debug, Clone, Copy, PartialEq, Eq, Structural, Hash)]
pub enum Version {
    /// A script whose styles stand under `[V4 Styles]`.
    V4,
    /// A script whose styles stand under `[V4+ Styles]`.
    V4Plus,
}

impl Default for Version {
    fn default() -> (v: Version)
        ensures
            v == Version::V4Plus,
    {
        Version::V4Plus
    }
}

} // verus!
