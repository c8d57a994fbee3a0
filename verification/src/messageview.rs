//! Identities for message widgets: messages still being sent have no server
//! identifier yet, so each widget instance draws a local one.

use vstd::prelude::*;

verus! {

/// Identifies an instance of a message widget, independently of any server
/// identifier.
#[derive(PartialEq, Eq, Clone, Copy, Debug, Structural)]
pub struct HistoryQMessageId(pub u32);

impl HistoryQMessageId {
    /// Draws the next identifier from a counter the caller owns. Each draw
    /// bumps the counter, so identifiers drawn from one counter are distinct.
    pub fn new(counter: &mut u32) -> (id: HistoryQMessageId)
        requires
            *old(counter) < u32::MAX,
        ensures
            id == (HistoryQMessageId(*old(counter))),
            *final(counter) == *old(counter) + 1,
    {
        let id = HistoryQMessageId(*counter);
        *counter = *counter + 1;
        id
    }
}

} // verus!
