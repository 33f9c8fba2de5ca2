use vstd::prelude::*;

verus! {

/// An inbound interaction event, reduced to the plain fields that waiter
/// predicates inspect: the event's own id and the id of the user who
/// produced it.
#[derive(Clone, Copy, Debug, PartialEq, Eq, Structural)]
pub struct InteractionEvent {
    /// Discriminates this event from every other event.
    pub id: u64,
    /// The user that produced the event.
    pub author_id: u64,
}

} // verus!
