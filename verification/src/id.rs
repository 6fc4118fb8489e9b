//! Identities of the nodes of a view tree.

use vstd::prelude::*;

verus! {

/// The name of one node. Two nodes that are alive at the same time under the
/// same parent never share one, as long as the allocator has identities left.
#[derive(Clone, Copy, PartialEq, Eq, Structural, Debug, Hash)]
pub struct Id {
    /// The number behind the identity.
    pub raw: u64,
}

/// The identities from the root down to one node.
pub type IdPath = Vec<Id>;

impl Id {
    /// The number behind the identity.
    pub open spec fn raw(self) -> u64 {
        self.raw
    }

    /// The identity with the given number.
    pub fn from_raw(raw: u64) -> (id: Id)
        ensures
            id == (Id { raw }),
    {
        Id { raw }
    }

    /// The number behind the identity.
    pub fn to_raw(self) -> (raw: u64)
        ensures
            raw == self.raw(),
    {
        self.raw
    }
}

/// A copy of a path.
pub fn copy_path(path: &Vec<Id>) -> (copy: Vec<Id>)
    ensures
        copy@ == path@,
{
    let mut copy: Vec<Id> = Vec::new();
    let mut i: usize = 0;
    while i < path.len()
        invariant
            i <= path.len(),
            copy@ == path@.subrange(0, i as int),
        decreases path.len() - i,
    {
        copy.push(path[i]);
        i += 1;
        assert(copy@ =~= path@.subrange(0, i as int));
    }
    assert(path@.subrange(0, path@.len() as int) =~= path@);
    copy
}

} // verus!
