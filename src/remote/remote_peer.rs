use vstd::prelude::*;

verus! {

/// A peer as seen from this node, known by its unique identifier.
pub struct RemotePeer<UniqueID> {
    pub unique_id: UniqueID,
}

impl<UniqueID> RemotePeer<UniqueID> {
    pub fn create(unique_id: UniqueID) -> (r: RemotePeer<UniqueID>)
        ensures
            r.unique_id == unique_id,
    {
        RemotePeer { unique_id }
    }
}

} // verus!
