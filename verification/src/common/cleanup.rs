//! Clean-up of what a room leaves behind.
use vstd::prelude::*;

use crate::common::error::Error;

verus! {

/// Removes the assets of rooms that are gone.
pub struct CleanupManager;

impl CleanupManager {
    /// Clean up the assets of the room `room_id`. No assets are kept for a room
    /// yet, so there is nothing that can fail.
    pub fn cleanup_room_assets(room_id: &str) -> (r: Result<(), Error>)
        ensures
            r is Ok,
    {
        Ok(())
    }
}

} // verus!
