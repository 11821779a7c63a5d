use vstd::prelude::*;

use crate::error::Error;

verus! {

/// A typed event with an opaque structured payload.
pub struct Event {
    pub event_type: String,
    pub data: serde_json::Value,
}

/// A handler for events; implementations are host-defined, and whatever
/// they perform is their own business.
pub trait EventHandler {
    /// Handles one event.
    fn handle(&self, event: &Event) -> Result<(), Error>;
}

} // verus!
