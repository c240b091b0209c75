use vstd::prelude::*;

verus! {

/// Errors raised by the session runtime itself.
#[derive(Debug)]
pub enum DuskError {
    /// A component was assembled in a way the messaging service does not accept.
    InvalidComponentError(String),
    /// Two controls of one render pass lowered to the same identifier.
    DuplicateCustomId(String),
    /// A lowered identifier is longer than the service accepts.
    CustomIdTooLong(String),
    /// A waiter is already registered for this message.
    WaiterExists(u64),
}

} // verus!
