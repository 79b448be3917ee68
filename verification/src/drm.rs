//! DRM render-node identity.

use vstd::prelude::*;

verus! {

/// Major and minor number of a DRM render node. `(0, 0)` stands for a node
/// that could not be determined; such a peer is treated as another GPU.
#[derive(Debug, Clone, Copy, PartialEq, Eq, Hash, Structural)]
pub struct DrmNode {
    pub major: u32,
    pub minor: u32,
}

impl DrmNode {
    /// The node that stands for "not determined".
    pub fn unknown() -> (r: Self)
        ensures
            r == (DrmNode { major: 0, minor: 0 }),
            !r.known(),
    {
        DrmNode { major: 0, minor: 0 }
    }

    pub open spec fn known(self) -> bool {
        self.major != 0 || self.minor != 0
    }

    pub fn is_known(&self) -> (r: bool)
        ensures
            r == self.known(),
    {
        self.major != 0 || self.minor != 0
    }
}

impl Default for DrmNode {
    fn default() -> (r: Self)
        ensures
            r == (DrmNode { major: 0, minor: 0 }),
    {
        DrmNode { major: 0, minor: 0 }
    }
}

} // verus!
