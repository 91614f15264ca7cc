use vstd::prelude::*;

verus! {

/// Identifies one room of a community.
#[derive(Debug, Clone, Copy, PartialEq, Eq, Structural)]
pub struct ChannelID(pub u64);

impl ChannelID {
    pub fn from_u64(id: u64) -> (r: ChannelID)
        ensures
            r.0 == id,
    {
        ChannelID(id)
    }

    pub fn as_u64(&self) -> (r: u64)
        ensures
            r == self.0,
    {
        self.0
    }
}

} // verus!
