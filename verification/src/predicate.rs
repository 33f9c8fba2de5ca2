use vstd::prelude::*;

use crate::event::InteractionEvent;

verus! {

/// A side-effect-free match condition over interaction events. A waiter is
/// registered together with a value of a type implementing this trait; the
/// delivery path evaluates it against each incoming event.
///
/// `spec_matches` is the mathematical meaning of the predicate; `matches` is
/// its executable form and must agree with it on every event.
pub trait EventPredicate: Sized {
    /// What it means, mathematically, for `event` to satisfy this predicate.
    spec fn spec_matches(&self, event: InteractionEvent) -> bool;

    /// Decides whether `event` satisfies this predicate.
    fn matches(&self, event: &InteractionEvent) -> (r: bool)
        ensures
            r == self.spec_matches(*event),
    ;
}

/// Matches exactly the events produced by the user with id `author_id`.
#[derive(Clone, Copy, Debug, PartialEq, Eq, Structural)]
pub struct AuthorPredicate {
    pub author_id: u64,
}

impl EventPredicate for AuthorPredicate {
    open spec fn spec_matches(&self, event: InteractionEvent) -> bool {
        event.author_id == self.author_id
    }

    fn matches(&self, event: &InteractionEvent) -> (r: bool) {
        event.author_id == self.author_id
    }
}

/// Matches exactly the event whose id is `id`.
#[derive(Clone, Copy, Debug, PartialEq, Eq, Structural)]
pub struct EventIdPredicate {
    pub id: u64,
}

impl EventPredicate for EventIdPredicate {
    open spec fn spec_matches(&self, event: InteractionEvent) -> bool {
        event.id == self.id
    }

    fn matches(&self, event: &InteractionEvent) -> (r: bool) {
        event.id == self.id
    }
}

/// Matches every event.
#[derive(Clone, Copy, Debug, PartialEq, Eq, Structural)]
pub struct MatchAny;

impl EventPredicate for MatchAny {
    open spec fn spec_matches(&self, event: InteractionEvent) -> bool {
        true
    }

    fn matches(&self, event: &InteractionEvent) -> (r: bool) {
        true
    }
}

} // verus!
