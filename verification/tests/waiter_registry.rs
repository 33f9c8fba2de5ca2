use zephyrus::event::InteractionEvent;
use zephyrus::predicate::{AuthorPredicate, EventIdPredicate, MatchAny};
use zephyrus::registry::{RegistrationError, WaiterOutcome, WaiterRegistry};

#[test]
fn registration_issues_fresh_ids_in_order() {
    let mut reg = WaiterRegistry::<MatchAny>::new();
    let a = reg.register(MatchAny).unwrap();
    let b = reg.register(MatchAny).unwrap();
    let c = reg.register(MatchAny).unwrap();
    assert_eq!(a, 0);
    assert_eq!(b, 1);
    assert_eq!(c, 2);
    assert_eq!(reg.pending_len(), 3);
    assert!(reg.is_pending(a));
    assert!(reg.is_pending(b));
    assert!(reg.is_pending(c));
}

#[test]
fn first_match_wins_among_several_matches() {
    let mut reg = WaiterRegistry::<AuthorPredicate>::new();
    let w1 = reg.register(AuthorPredicate { author_id: 10 }).unwrap();
    let w2 = reg.register(AuthorPredicate { author_id: 42 }).unwrap();
    let w3 = reg.register(AuthorPredicate { author_id: 11 }).unwrap();
    let w4 = reg.register(AuthorPredicate { author_id: 42 }).unwrap();
    let event = InteractionEvent { id: 1, author_id: 42 };
    // The event matches the waiters registered second and fourth; only the
    // earliest of them is resolved.
    let resolved = reg.deliver(&event);
    assert_eq!(resolved, Some(w2));
    assert!(!reg.is_pending(w2));
    assert!(reg.is_pending(w1));
    assert!(reg.is_pending(w3));
    assert!(reg.is_pending(w4));
    assert_eq!(reg.pending_len(), 3);
    assert_eq!(reg.outcome_of(w2), Some(WaiterOutcome::Resolved(event)));
    assert_eq!(reg.outcome_of(w4), None);
}

#[test]
fn no_match_leaves_registry_unchanged() {
    let mut reg = WaiterRegistry::<AuthorPredicate>::new();
    let w1 = reg.register(AuthorPredicate { author_id: 1 }).unwrap();
    let w2 = reg.register(AuthorPredicate { author_id: 2 }).unwrap();
    let w3 = reg.register(AuthorPredicate { author_id: 3 }).unwrap();
    let before = (reg.pending_len(), reg.issued());
    let event = InteractionEvent { id: 9, author_id: 999 };
    let resolved = reg.deliver(&event);
    assert_eq!(resolved, None);
    assert_eq!(reg.pending_len(), before.0);
    assert_eq!(reg.issued(), before.1);
    assert!(reg.is_pending(w1));
    assert!(reg.is_pending(w2));
    assert!(reg.is_pending(w3));
    assert_eq!(reg.outcome_of(w1), None);
    assert_eq!(reg.outcome_of(w2), None);
    assert_eq!(reg.outcome_of(w3), None);
}

#[test]
fn teardown_resolves_all_with_cancellation() {
    let mut reg = WaiterRegistry::<EventIdPredicate>::new();
    let w1 = reg.register(EventIdPredicate { id: 100 }).unwrap();
    let w2 = reg.register(EventIdPredicate { id: 200 }).unwrap();
    let w3 = reg.register(EventIdPredicate { id: 300 }).unwrap();
    let cancelled = reg.cancel_all();
    assert_eq!(cancelled, vec![w1, w2, w3]);
    assert_eq!(reg.pending_len(), 0);
    assert_eq!(reg.outcome_of(w1), Some(WaiterOutcome::Cancelled));
    assert_eq!(reg.outcome_of(w2), Some(WaiterOutcome::Cancelled));
    assert_eq!(reg.outcome_of(w3), Some(WaiterOutcome::Cancelled));
}

#[test]
fn sequential_deliveries_never_resolve_a_waiter_twice() {
    let mut reg = WaiterRegistry::<MatchAny>::new();
    let a = reg.register(MatchAny).unwrap();
    let b = reg.register(MatchAny).unwrap();
    let e1 = InteractionEvent { id: 1, author_id: 5 };
    let e2 = InteractionEvent { id: 2, author_id: 5 };
    let e3 = InteractionEvent { id: 3, author_id: 5 };
    // Each strictly sequential delivery consumes a different waiter; once
    // both are resolved, further events are not consumed and no recorded
    // outcome changes.
    assert_eq!(reg.deliver(&e1), Some(a));
    assert_eq!(reg.deliver(&e2), Some(b));
    assert_eq!(reg.deliver(&e3), None);
    assert_eq!(reg.outcome_of(a), Some(WaiterOutcome::Resolved(e1)));
    assert_eq!(reg.outcome_of(b), Some(WaiterOutcome::Resolved(e2)));
}

#[test]
fn author_scenario_resolves_once_and_only_once() {
    let mut reg = WaiterRegistry::<AuthorPredicate>::new();
    let w = reg.register(AuthorPredicate { author_id: 42 }).unwrap();
    // An event from another author is not consumed; the waiter stays
    // pending.
    let stranger = InteractionEvent { id: 1, author_id: 7 };
    assert_eq!(reg.deliver(&stranger), None);
    assert!(reg.is_pending(w));
    assert_eq!(reg.outcome_of(w), None);
    // The first event from author 42 resolves the waiter with that event.
    let wanted = InteractionEvent { id: 2, author_id: 42 };
    assert_eq!(reg.deliver(&wanted), Some(w));
    assert!(!reg.is_pending(w));
    assert_eq!(reg.outcome_of(w), Some(WaiterOutcome::Resolved(wanted)));
    // A later event from author 42 is not consumed by the already-removed
    // waiter, and the recorded outcome keeps the first matching event.
    let later = InteractionEvent { id: 3, author_id: 42 };
    assert_eq!(reg.deliver(&later), None);
    assert_eq!(reg.outcome_of(w), Some(WaiterOutcome::Resolved(wanted)));
}

#[test]
fn registration_fails_fast_after_teardown() {
    let mut reg = WaiterRegistry::<MatchAny>::new();
    assert!(reg.live());
    let pending = reg.register(MatchAny).unwrap();
    reg.cancel_all();
    assert!(!reg.live());
    // A torn-down session accepts no waiter that could never resolve.
    assert_eq!(reg.register(MatchAny), Err(RegistrationError::TornDown));
    assert_eq!(reg.pending_len(), 0);
    assert_eq!(reg.outcome_of(pending), Some(WaiterOutcome::Cancelled));
}

#[test]
fn cancel_all_on_empty_registry_cancels_nothing() {
    let mut reg = WaiterRegistry::<MatchAny>::new();
    let cancelled = reg.cancel_all();
    assert!(cancelled.is_empty());
    assert_eq!(reg.pending_len(), 0);
}
