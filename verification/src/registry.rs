use vstd::prelude::*;

use crate::event::InteractionEvent;
use crate::predicate::EventPredicate;

verus! {

/// One registered wait: the id handed back to the registering caller, and
/// the predicate that an incoming event must satisfy to resolve it.
///
/// Every pending waiter is distinct, even when two predicates are equal:
/// the registry never deduplicates, and each registration draws a fresh id.
pub struct PendingWaiter<P> {
    /// The id handed to the caller at registration.
    pub id: u64,
    /// The condition an event must satisfy to resolve this waiter.
    pub predicate: P,
}

/// The terminal state of a waiter: either the first matching event, or a
/// cancellation signal from tearing the registry down.
#[derive(Clone, Copy, Debug, PartialEq, Eq, Structural)]
pub enum WaiterOutcome {
    /// The waiter's predicate accepted this event.
    Resolved(InteractionEvent),
    /// The registry was torn down while the waiter was still pending.
    Cancelled,
}

/// Why a registration was refused. Registration cannot fail while the
/// registry is live; once the session is torn down, accepting a waiter
/// would leave it to hang forever, so it is refused fast instead.
#[derive(Clone, Copy, Debug, PartialEq, Eq, Structural)]
pub enum RegistrationError {
    /// The owning session was already torn down.
    TornDown,
}

/// The index of the first entry of `s` whose predicate accepts `event`,
/// if any entry does.
pub open spec fn first_match<P: EventPredicate>(
    s: Seq<PendingWaiter<P>>,
    event: InteractionEvent,
) -> Option<int>
    decreases s.len(),
{
    if s.len() == 0 {
        None
    } else if s[0].predicate.spec_matches(event) {
        Some(0int)
    } else {
        match first_match(s.drop_first(), event) {
            Some(i) => Some(i + 1),
            None => None,
        }
    }
}

/// The outcome recorded for waiter `id` in the completion log `s`, if one is
/// recorded there.
pub open spec fn outcome_in(s: Seq<(u64, WaiterOutcome)>, id: u64) -> Option<WaiterOutcome>
    decreases s.len(),
{
    if s.len() == 0 {
        None
    } else if s[0].0 == id {
        Some(s[0].1)
    } else {
        outcome_in(s.drop_first(), id)
    }
}

/// The completion-log extension that tearing a pending list down
/// produces: a cancellation outcome for each entry, in order.
pub open spec fn cancellation_log<P: EventPredicate>(
    s: Seq<PendingWaiter<P>>,
) -> Seq<(u64, WaiterOutcome)> {
    s.map_values(|w: PendingWaiter<P>| (w.id, WaiterOutcome::Cancelled))
}

/// The ids of a pending list, in registration order.
pub open spec fn pending_ids<P: EventPredicate>(s: Seq<PendingWaiter<P>>) -> Seq<u64> {
    s.map_values(|w: PendingWaiter<P>| w.id)
}

/// A session-scoped registry of pending waiters.
///
/// The id handed out by `register` is the caller's waiter handle: the
/// caller observes its waiter through `is_pending` and `outcome_of`.
/// Waiters are kept in registration order; `deliver` resolves the first
/// pending waiter whose predicate accepts the event, and no other. Every
/// waiter reaches exactly one terminal outcome: `deliver` or `cancel_all`
/// moves it, at most once, from the pending list into the completion log.
pub struct WaiterRegistry<P> {
    next_id: u64,
    live: bool,
    pending: Vec<PendingWaiter<P>>,
    done: Vec<(u64, WaiterOutcome)>,
}

impl<P: EventPredicate> WaiterRegistry<P> {
    /// The pending waiters, in registration order.
    pub closed spec fn waiting(self) -> Seq<PendingWaiter<P>> {
        self.pending@
    }

    /// The completion log: each entry pairs a waiter id with the one
    /// terminal outcome that waiter reached.
    pub closed spec fn completed(self) -> Seq<(u64, WaiterOutcome)> {
        self.done@
    }

    /// The id the next registration will receive.
    pub closed spec fn next_waiter_id(self) -> u64 {
        self.next_id
    }

    /// Whether the registry still accepts registrations: true from creation
    /// until the session is torn down with `cancel_all`.
    pub closed spec fn is_live(self) -> bool {
        self.live
    }

    /// Well-formedness: ids are issued monotonically, no id is pending
    /// twice, no id has two recorded outcomes, and no id is both pending
    /// and completed. This is what makes at-most-one resolution hold.
    pub closed spec fn wf(self) -> bool {
        &&& forall|i: int|
            0 <= i < self.pending@.len() ==> #[trigger] self.pending@[i].id < self.next_id
        &&& forall|i: int, j: int|
            #![trigger self.pending@[i].id, self.pending@[j].id]
            0 <= i < j < self.pending@.len() ==> self.pending@[i].id != self.pending@[j].id
        &&& forall|i: int|
            0 <= i < self.done@.len() ==> #[trigger] self.done@[i].0 < self.next_id
        &&& forall|i: int, j: int|
            #![trigger self.done@[i].0, self.done@[j].0]
            0 <= i < j < self.done@.len() ==> self.done@[i].0 != self.done@[j].0
        &&& forall|i: int, j: int|
            #![trigger self.pending@[i].id, self.done@[j].0]
            0 <= i < self.pending@.len() && 0 <= j < self.done@.len() ==> self.pending@[i].id
                != self.done@[j].0
    }

    /// Creates an empty registry.
    pub fn new() -> (r: Self)
        ensures
            r.wf(),
            r.is_live(),
            r.waiting() == Seq::<PendingWaiter<P>>::empty(),
            r.completed() == Seq::<(u64, WaiterOutcome)>::empty(),
            r.next_waiter_id() == 0,
    {
        let r = WaiterRegistry { next_id: 0u64, live: true, pending: Vec::new(), done: Vec::new() };
        proof {
            assert(r.pending@ =~= Seq::<PendingWaiter<P>>::empty());
            assert(r.done@ =~= Seq::<(u64, WaiterOutcome)>::empty());
        }
        r
    }

    /// Appends a new pending waiter for `predicate` and returns its fresh
    /// id. While the registry is live registration always succeeds and
    /// leaves every other entry in place; on a torn-down registry it fails
    /// fast, accepting no waiter that could never resolve.
    pub fn register(&mut self, predicate: P) -> (r: Result<u64, RegistrationError>)
        requires
            old(self).wf(),
            old(self).next_waiter_id() < u64::MAX,
        ensures
            final(self).wf(),
            match r {
                Ok(id) => {
                    &&& old(self).is_live()
                    &&& final(self).is_live()
                    &&& id == old(self).next_waiter_id()
                    &&& final(self).waiting() == old(self).waiting().push(
                        (PendingWaiter { id, predicate }),
                    )
                    &&& final(self).completed() == old(self).completed()
                    &&& final(self).next_waiter_id() == old(self).next_waiter_id() + 1
                },
                Err(e) => {
                    &&& !old(self).is_live()
                    &&& e == RegistrationError::TornDown
                    &&& final(self).is_live() == old(self).is_live()
                    &&& final(self).waiting() == old(self).waiting()
                    &&& final(self).completed() == old(self).completed()
                    &&& final(self).next_waiter_id() == old(self).next_waiter_id()
                },
            },
    {
        if !self.live {
            return Err(RegistrationError::TornDown);
        }
        let id = self.next_id;
        self.pending.push(PendingWaiter { id, predicate });
        self.next_id = self.next_id + 1;
        Ok(id)
    }

    /// Whether the waiter with this id is still pending.
    pub open spec fn spec_is_pending(self, id: u64) -> bool {
        exists|i: int| 0 <= i < self.waiting().len() && #[trigger] self.waiting()[i].id == id
    }

    /// The terminal outcome recorded for this id, if it has reached one.
    pub open spec fn spec_outcome(self, id: u64) -> Option<WaiterOutcome> {
        outcome_in(self.completed(), id)
    }

    /// Delivers one incoming event. The first pending waiter, in
    /// registration order, whose predicate accepts the event is removed and
    /// resolved with the event; its id is returned. Every other waiter is
    /// left pending. If no predicate accepts the event, the registry is
    /// left entirely unchanged and the event is not consumed.
    #[verifier::loop_isolation(false)]
    pub fn deliver(&mut self, event: &InteractionEvent) -> (resolved: Option<u64>)
        requires
            old(self).wf(),
        ensures
            final(self).wf(),
            final(self).is_live() == old(self).is_live(),
            final(self).next_waiter_id() == old(self).next_waiter_id(),
            match first_match(old(self).waiting(), *event) {
                None => {
                    &&& resolved is None
                    &&& final(self).waiting() == old(self).waiting()
                    &&& final(self).completed() == old(self).completed()
                },
                Some(i) => {
                    &&& resolved == Some(old(self).waiting()[i].id)
                    &&& final(self).waiting() == old(self).waiting().remove(i)
                    &&& final(self).completed() == old(self).completed().push(
                        ((old(self).waiting()[i].id, WaiterOutcome::Resolved(*event))),
                    )
                },
            },
    {
        let ghost s0 = self.pending@;
        let mut i: usize = 0;
        while i < self.pending.len()
            invariant
                self == old(self),
                i <= s0.len(),
                s0 == self.pending@,
                forall|j: int| 0 <= j < i ==> !#[trigger] s0[j].predicate.spec_matches(*event),
            decreases s0.len() - i,
        {
            let hit = self.pending[i].predicate.matches(event);
            if hit {
                proof {
                    lemma_first_match_skip(s0, *event, i as int);
                    assert(s0.subrange(i as int, s0.len() as int)[0] == s0[i as int]);
                    assert(first_match(s0, *event) == Some(i as int));
                }
                let ghost d0 = self.done@;
                let w = self.pending.remove(i);
                self.done.push((w.id, WaiterOutcome::Resolved(*event)));
                proof {
                    let ii = i as int;
                    let sp = self.pending@;
                    s0.remove_ensures(ii);
                    assert(sp == s0.remove(ii));
                    assert(sp.len() == s0.len() - 1);
                    let at = |a: int| if a < ii { a } else { a + 1 };
                    assert forall|a: int, b: int|
                        0 <= a < b < sp.len() implies sp[a].id != sp[b].id by {
                        assert(sp[a] == s0[at(a)]);
                        assert(sp[b] == s0[at(b)]);
                        assert(s0[at(a)].id != s0[at(b)].id);
                    }
                    assert forall|a: int|
                        0 <= a < sp.len() implies #[trigger] sp[a].id < self.next_id by {
                        assert(sp[a] == s0[at(a)]);
                        assert(s0[at(a)].id < old(self).next_id);
                    }
                    assert forall|a: int, b: int|
                        #![trigger sp[a].id, self.done@[b].0]
                        0 <= a < sp.len() && 0 <= b < self.done@.len() implies sp[a].id
                            != self.done@[b].0 by {
                        assert(sp[a] == s0[at(a)]);
                        if b < d0.len() {
                            assert(self.done@[b] == d0[b]);
                            assert(s0[at(a)].id != d0[b].0);
                        } else {
                            assert(self.done@[b].0 == s0[ii].id);
                            assert(s0[at(a)].id != s0[ii].id);
                        }
                    }
                }
                return Some(w.id);
            }
            i = i + 1;
        }
        proof {
            lemma_first_match_skip(s0, *event, s0.len() as int);
        }
        None
    }

    /// Tears the registry down: every still-pending waiter is resolved
    /// with a cancellation signal, in registration order, and the list of
    /// their ids is returned. No waiter is left pending, and no further
    /// registration is accepted.
    #[verifier::loop_isolation(false)]
    pub fn cancel_all(&mut self) -> (cancelled: Vec<u64>)
        requires
            old(self).wf(),
        ensures
            final(self).wf(),
            !final(self).is_live(),
            final(self).next_waiter_id() == old(self).next_waiter_id(),
            final(self).waiting() == Seq::<PendingWaiter<P>>::empty(),
            final(self).completed() == old(self).completed() + cancellation_log(
                old(self).waiting(),
            ),
            cancelled@ == pending_ids(old(self).waiting()),
    {
        self.live = false;
        let ghost s0 = self.pending@;
        let ghost d0 = self.done@;
        let ghost fdone = |w: PendingWaiter<P>| (w.id, WaiterOutcome::Cancelled);
        let ghost fid = |w: PendingWaiter<P>| w.id;
        let mut cancelled: Vec<u64> = Vec::new();
        proof {
            assert(d0 + s0.subrange(0, 0).map_values(fdone) =~= d0);
            assert(cancelled@ =~= s0.subrange(0, 0).map_values(fid));
            assert(self.pending@ =~= s0.subrange(0, s0.len() as int));
        }
        while self.pending.len() > 0
            invariant
                !self.live,
                self.next_id == old(self).next_id,
                cancelled@.len() <= s0.len(),
                self.pending@ == s0.subrange(cancelled@.len() as int, s0.len() as int),
                self.done@ == d0 + s0.subrange(0, cancelled@.len() as int).map_values(fdone),
                cancelled@ == s0.subrange(0, cancelled@.len() as int).map_values(fid),
            decreases self.pending.len(),
        {
            let ghost k = cancelled@.len() as int;
            let w = self.pending.remove(0);
            proof {
                assert(w == s0[k]);
                assert(self.pending@ =~= s0.subrange(k + 1, s0.len() as int));
            }
            self.done.push((w.id, WaiterOutcome::Cancelled));
            cancelled.push(w.id);
            proof {
                let dk = d0 + s0.subrange(0, k).map_values(fdone);
                let dk1 = d0 + s0.subrange(0, k + 1).map_values(fdone);
                assert forall|j: int| 0 <= j < self.done@.len() implies self.done@[j]
                    == dk1[j] by {
                    if j < dk.len() {
                        assert(self.done@[j] == dk[j]);
                        if j >= d0.len() {
                            assert(dk[j] == fdone(s0.subrange(0, k)[j - d0.len()]));
                            assert(dk1[j] == fdone(s0.subrange(0, k + 1)[j - d0.len()]));
                        }
                    } else {
                        assert(self.done@[j] == (w.id, WaiterOutcome::Cancelled));
                        assert(dk1[j] == fdone(s0.subrange(0, k + 1)[k]));
                    }
                }
                assert(self.done@ =~= dk1);
                let ck = s0.subrange(0, k).map_values(fid);
                let ck1 = s0.subrange(0, k + 1).map_values(fid);
                assert forall|j: int| 0 <= j < cancelled@.len() implies cancelled@[j]
                    == ck1[j] by {
                    if j < ck.len() {
                        assert(cancelled@[j] == ck[j]);
                        assert(ck[j] == fid(s0.subrange(0, k)[j]));
                        assert(ck1[j] == fid(s0.subrange(0, k + 1)[j]));
                    } else {
                        assert(cancelled@[j] == w.id);
                        assert(ck1[j] == fid(s0.subrange(0, k + 1)[k]));
                    }
                }
                assert(cancelled@ =~= ck1);
            }
        }
        proof {
            assert(self.pending@ =~= Seq::<PendingWaiter<P>>::empty());
            assert(s0.subrange(0, s0.len() as int) =~= s0);
            assert(self.done@ == d0 + s0.map_values(fdone));
            assert(cancelled@ == s0.map_values(fid));
            let dn = self.done@;
            assert forall|a: int, b: int|
                #![trigger dn[a].0, dn[b].0]
                0 <= a < b < dn.len() implies dn[a].0 != dn[b].0 by {
                if b < d0.len() {
                    assert(dn[a] == d0[a]);
                    assert(dn[b] == d0[b]);
                    assert(d0[a].0 != d0[b].0);
                } else if a < d0.len() {
                    assert(dn[a] == d0[a]);
                    assert(dn[b] == fdone(s0[b - d0.len()]));
                    assert(s0[b - d0.len()].id != d0[a].0);
                } else {
                    assert(dn[a] == fdone(s0[a - d0.len()]));
                    assert(dn[b] == fdone(s0[b - d0.len()]));
                    assert(s0[a - d0.len()].id != s0[b - d0.len()].id);
                }
            }
            assert forall|a: int| 0 <= a < dn.len() implies #[trigger] dn[a].0 < self.next_id by {
                if a < d0.len() {
                    assert(dn[a] == d0[a]);
                    assert(d0[a].0 < old(self).next_id);
                } else {
                    assert(dn[a] == fdone(s0[a - d0.len()]));
                    assert(s0[a - d0.len()].id < old(self).next_id);
                }
            }
            assert(cancellation_log(s0) =~= s0.map_values(fdone));
            assert(pending_ids(s0) =~= s0.map_values(fid));
        }
        cancelled
    }

    /// Looks the id's terminal outcome up in the completion log.
    #[verifier::loop_isolation(false)]
    pub fn outcome_of(&self, id: u64) -> (r: Option<WaiterOutcome>)
        ensures
            r == self.spec_outcome(id),
    {
        let mut i: usize = 0;
        while i < self.done.len()
            invariant
                i <= self.done@.len(),
                forall|j: int| 0 <= j < i ==> #[trigger] self.done@[j].0 != id,
            decreases self.done@.len() - i,
        {
            if self.done[i].0 == id {
                proof {
                    lemma_outcome_in_skip(self.done@, id, i as int);
                    assert(self.done@.subrange(i as int, self.done@.len() as int)[0]
                        == self.done@[i as int]);
                }
                return Some(self.done[i].1);
            }
            i = i + 1;
        }
        proof {
            lemma_outcome_in_skip(self.done@, id, self.done@.len() as int);
        }
        None
    }

    /// Whether the waiter with this id is still pending.
    #[verifier::loop_isolation(false)]
    pub fn is_pending(&self, id: u64) -> (r: bool)
        ensures
            r == self.spec_is_pending(id),
    {
        let mut i: usize = 0;
        while i < self.pending.len()
            invariant
                i <= self.pending@.len(),
                forall|j: int| 0 <= j < i ==> #[trigger] self.pending@[j].id != id,
            decreases self.pending@.len() - i,
        {
            if self.pending[i].id == id {
                proof {
                    assert(self.waiting()[i as int].id == id);
                }
                return true;
            }
            i = i + 1;
        }
        proof {
            assert forall|j: int|
                0 <= j < self.waiting().len() implies #[trigger] self.waiting()[j].id != id by {
                assert(self.pending@[j].id != id);
            }
        }
        false
    }

    /// The number of waiters still pending.
    pub fn pending_len(&self) -> (n: usize)
        ensures
            n == self.waiting().len(),
    {
        self.pending.len()
    }

    /// How many waiter ids this registry has issued; the next registration
    /// receives exactly this value as its id.
    pub fn issued(&self) -> (n: u64)
        ensures
            n == self.next_waiter_id(),
    {
        self.next_id
    }

    /// Whether the registry still accepts registrations.
    pub fn live(&self) -> (r: bool)
        ensures
            r == self.is_live(),
    {
        self.live
    }
}

/// Skipping a matchless prefix does not change which waiter an event
/// resolves: if none of the first `i` predicates accepts `event`, the first
/// match in the whole sequence is the first match in the rest, shifted.
pub proof fn lemma_first_match_skip<P: EventPredicate>(
    s: Seq<PendingWaiter<P>>,
    event: InteractionEvent,
    i: int,
)
    requires
        0 <= i <= s.len(),
        forall|j: int| 0 <= j < i ==> !#[trigger] s[j].predicate.spec_matches(event),
    ensures
        first_match(s, event) == match first_match(
            s.subrange(i, s.len() as int),
            event,
        ) {
            Some(m) => Some(m + i),
            None => None,
        },
    decreases i,
{
    if i == 0 {
        assert(s.subrange(0, s.len() as int) =~= s);
    } else {
        assert(!s[0].predicate.spec_matches(event));
        let t = s.drop_first();
        assert forall|j: int| 0 <= j < i - 1 implies !#[trigger] t[j].predicate.spec_matches(
            event,
        ) by {
            assert(t[j] == s[j + 1]);
        }
        lemma_first_match_skip(t, event, i - 1);
        assert(t.subrange(i - 1, t.len() as int) =~= s.subrange(i, s.len() as int));
    }
}

/// Skipping entries for other ids does not change a lookup in the
/// completion log.
pub proof fn lemma_outcome_in_skip(s: Seq<(u64, WaiterOutcome)>, id: u64, i: int)
    requires
        0 <= i <= s.len(),
        forall|j: int| 0 <= j < i ==> #[trigger] s[j].0 != id,
    ensures
        outcome_in(s, id) == outcome_in(s.subrange(i, s.len() as int), id),
    decreases i,
{
    if i == 0 {
        assert(s.subrange(0, s.len() as int) =~= s);
    } else {
        let t = s.drop_first();
        assert forall|j: int| 0 <= j < i - 1 implies #[trigger] t[j].0 != id by {
            assert(t[j] == s[j + 1]);
        }
        lemma_outcome_in_skip(t, id, i - 1);
        assert(t.subrange(i - 1, t.len() as int) =~= s.subrange(i, s.len() as int));
    }
}

/// First-match-wins: the index `first_match` picks is a matching one, and
/// every waiter registered before it does not match, so delivering an event
/// that several pending predicates accept resolves exactly the earliest of
/// them and leaves the later ones pending. When `first_match` picks nothing,
/// no pending predicate accepts the event.
pub proof fn lemma_first_match_is_first<P: EventPredicate>(
    s: Seq<PendingWaiter<P>>,
    event: InteractionEvent,
)
    ensures
        match first_match(s, event) {
            None => forall|j: int|
                0 <= j < s.len() ==> !#[trigger] s[j].predicate.spec_matches(event),
            Some(i) => {
                &&& 0 <= i < s.len()
                &&& s[i].predicate.spec_matches(event)
                &&& forall|j: int| 0 <= j < i ==> !#[trigger] s[j].predicate.spec_matches(event)
            },
        },
    decreases s.len(),
{
    if s.len() == 0 {
    } else if s[0].predicate.spec_matches(event) {
    } else {
        let t = s.drop_first();
        lemma_first_match_is_first(t, event);
        assert forall|j: int|
            0 <= j < s.len() && (match first_match(t, event) {
                None => true,
                Some(i) => j < i + 1,
            }) implies !#[trigger] s[j].predicate.spec_matches(event) by {
            if j > 0 {
                assert(s[j] == t[j - 1]);
            }
        }
    }
}

/// An id is recorded in a completion log exactly when some entry carries it.
pub proof fn lemma_outcome_in_present(s: Seq<(u64, WaiterOutcome)>, id: u64)
    ensures
        outcome_in(s, id) is Some <==> exists|j: int| 0 <= j < s.len() && #[trigger] s[j].0 == id,
    decreases s.len(),
{
    if s.len() == 0 {
    } else if s[0].0 == id {
        assert(s[0].0 == id);
    } else {
        let t = s.drop_first();
        lemma_outcome_in_present(t, id);
        if exists|j: int| 0 <= j < s.len() && #[trigger] s[j].0 == id {
            let j = choose|j: int| 0 <= j < s.len() && #[trigger] s[j].0 == id;
            assert(t[j - 1] == s[j]);
        }
        if exists|j: int| 0 <= j < t.len() && #[trigger] t[j].0 == id {
            let j = choose|j: int| 0 <= j < t.len() && #[trigger] t[j].0 == id;
            assert(s[j + 1] == t[j]);
        }
    }
}

/// The outcome a lookup finds is one that some entry carrying the id holds.
pub proof fn lemma_outcome_in_value(s: Seq<(u64, WaiterOutcome)>, id: u64)
    ensures
        match outcome_in(s, id) {
            Some(o) => exists|j: int|
                0 <= j < s.len() && #[trigger] s[j] == (id, o),
            None => true,
        },
    decreases s.len(),
{
    if s.len() == 0 {
    } else if s[0].0 == id {
        assert(s[0] == (id, s[0].1));
    } else {
        let t = s.drop_first();
        lemma_outcome_in_value(t, id);
        if outcome_in(t, id) is Some {
            let o = outcome_in(t, id)->0;
            let j = choose|j: int| 0 <= j < t.len() && #[trigger] t[j] == (id, o);
            assert(s[j + 1] == t[j]);
        }
    }
}

impl<P: EventPredicate> WaiterRegistry<P> {
    /// Teardown resolves all: `cancel_all` leaves a registry whose
    /// completion log is the old one extended by a cancellation for each
    /// formerly pending waiter. In any such post-state, every waiter that
    /// was pending before the teardown has the cancellation outcome — none
    /// is left to hang.
    pub proof fn lemma_teardown_outcome(pre: Self, post: Self, id: u64)
        requires
            pre.wf(),
            post.completed() == pre.completed() + cancellation_log(pre.waiting()),
            pre.spec_is_pending(id),
        ensures
            post.spec_outcome(id) == Some(WaiterOutcome::Cancelled),
    {
        let d = pre.completed();
        let c = cancellation_log(pre.waiting());
        let i = choose|i: int| 0 <= i < pre.waiting().len() && #[trigger] pre.waiting()[i].id
            == id;
        assert forall|j: int| 0 <= j < d.len() implies #[trigger] (d + c)[j].0 != id by {
            assert((d + c)[j] == d[j]);
            assert(pre.waiting()[i].id != d[j].0);
        }
        lemma_outcome_in_skip(d + c, id, d.len() as int);
        assert((d + c).subrange(d.len() as int, (d + c).len() as int) =~= c);
        assert(c[i] == (id, WaiterOutcome::Cancelled));
        assert(c[i].0 == id);
        lemma_outcome_in_present(c, id);
        assert(outcome_in(c, id) is Some);
        lemma_outcome_in_value(c, id);
        let o = outcome_in(c, id)->0;
        let j = choose|j: int| 0 <= j < c.len() && #[trigger] c[j] == (id, o);
        assert(c[j].1 == WaiterOutcome::Cancelled);
    }

    /// Sequential deliveries never resolve the same waiter twice: once a
    /// waiter has a recorded outcome, no event delivered to the registry
    /// it left behind can pick it as its first match — `deliver` resolves
    /// only the first matching pending waiter, and the resolved waiter is
    /// pending no more.
    pub proof fn lemma_no_second_resolution(self, id: u64)
        requires
            self.wf(),
            self.spec_outcome(id) is Some,
        ensures
            forall|e: InteractionEvent|
                match #[trigger] first_match(self.waiting(), e) {
                    Some(i) => self.waiting()[i].id != id,
                    None => true,
                },
    {
        self.lemma_completed_not_pending(id);
        assert forall|e: InteractionEvent|
            match #[trigger] first_match(self.waiting(), e) {
                Some(i) => self.waiting()[i].id != id,
                None => true,
            } by {
            lemma_first_match_is_first(self.waiting(), e);
            match first_match(self.waiting(), e) {
                Some(i) => {
                    assert(0 <= i < self.waiting().len());
                    assert(self.waiting()[i].id != id);
                },
                None => {},
            }
        }
    }

    /// At-most-one resolution: in a well-formed registry no waiter id has
    /// two recorded outcomes, so `resolve` or `cancel` reaches any one
    /// waiter at most once over its lifetime.
    pub proof fn lemma_at_most_one_outcome(self, i: int, j: int)
        requires
            self.wf(),
            0 <= i < self.completed().len(),
            0 <= j < self.completed().len(),
            i != j,
        ensures
            self.completed()[i].0 != self.completed()[j].0,
    {
    }

    /// A waiter that has reached a terminal outcome is no longer pending,
    /// so no later delivery — `deliver` resolves only pending waiters —
    /// can resolve it a second time, however many events arrive.
    pub proof fn lemma_completed_not_pending(self, id: u64)
        requires
            self.wf(),
            self.spec_outcome(id) is Some,
        ensures
            !self.spec_is_pending(id),
    {
        lemma_outcome_in_present(self.completed(), id);
        let j = choose|j: int| 0 <= j < self.completed().len() && #[trigger] self.completed()[j].0
            == id;
        assert forall|i: int|
            0 <= i < self.waiting().len() implies #[trigger] self.waiting()[i].id != id by {
            assert(self.pending@[i].id != self.done@[j].0);
        }
    }
}

} // verus!
