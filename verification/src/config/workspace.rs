//! The workspace the tools operate in.
use vstd::prelude::*;

verus! {

/// The workspace: the directory whose files the tools read, held as its canonical path.
pub struct Workspace {
    root: String,
}

impl Workspace {
    /// The workspace's root path.
    pub closed spec fn root_path(&self) -> Seq<char> {
        self.root@
    }

    /// A workspace rooted at the given (canonical) directory path.
    pub fn new(root: String) -> (r: Self)
        ensures
            r.root_path() == root@,
    {
        Workspace { root }
    }

    /// The workspace's root path.
    pub fn root(&self) -> (r: &str)
        ensures
            r@ == self.root_path(),
    {
        self.root.as_str()
    }
}

} // verus!
