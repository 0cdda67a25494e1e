//! The prefix handle: the on-disk location a resolution unit installs into.

use vstd::prelude::*;

verus! {

/// The installed, on-disk representation of a resolved environment, named by
/// the directory it lives in. A pure handle; no I/O happens here.
#[derive(Debug)]
pub struct Prefix {
    pub root: String,
}

impl Prefix {
    /// Wraps a directory into a prefix handle.
    pub fn new(root: String) -> (r: Prefix)
        ensures
            r.root == root,
    {
        Prefix { root }
    }

    /// The directory of this prefix.
    pub fn root(&self) -> (r: &String)
        ensures
            r == &self.root,
    {
        &self.root
    }
}

} // verus!
