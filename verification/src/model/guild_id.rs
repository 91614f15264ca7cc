use vstd::prelude::*;

verus! {

/// Identifies one community.
#[derive(Debug, Clone, Copy, PartialEq, Eq, Structural)]
pub struct GuildID(pub u64);

impl GuildID {
    pub fn from_u64(id: u64) -> (r: GuildID)
        ensures
            r.0 == id,
    {
        GuildID(id)
    }

    pub fn as_u64(&self) -> (r: u64)
        ensures
            r == self.0,
    {
        self.0
    }
}

} // verus!
