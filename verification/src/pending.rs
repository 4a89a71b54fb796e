//! Approvals that wait for the phone.
//!
//! A hook that can be answered registers and gets a ticket; `resolve` answers the
//! ticket that its identifier stands for. Every other way in which a wait can end
//! leaves the ticket without an answer: nothing but an explicit answer ever reads
//! as one.

use std::collections::HashMap;
use vstd::prelude::*;
use vstd::std_specs::hash::group_hash_axioms;

verus! {

/// What has become of a ticket.
#[derive(Debug, Clone, Copy, PartialEq, Eq, Structural)]
pub enum Slot {
    /// The hook waits.
    Waiting,
    /// The phone answered.
    Answered(bool),
    /// Nobody can answer any more.
    Closed,
    /// The hook has gone away.
    Abandoned,
}

/// The approvals that wait, by identifier, and what has become of each ticket.
#[derive(Debug)]
pub struct Pending {
    waiting: HashMap<u128, usize>,
    slots: Vec<Slot>,
}

/// The registry as the contracts speak of it.
pub struct PendingView {
    pub waiting: Map<u128, usize>,
    pub slots: Seq<Slot>,
}

impl View for Pending {
    type V = PendingView;

    closed spec fn view(&self) -> PendingView {
        PendingView { waiting: self.waiting@, slots: self.slots@ }
    }
}

/// The slots once nobody can answer a ticket any more.
pub open spec fn closed_slot(slots: Seq<Slot>, ticket: usize) -> Seq<Slot> {
    if ticket < slots.len() && slots[ticket as int] == Slot::Waiting {
        slots.update(ticket as int, Slot::Closed)
    } else {
        slots
    }
}

impl PendingView {
    /// A ticket more, for an identifier. A ticket that the identifier stood for
    /// before cannot be answered any more.
    pub open spec fn registered(self, id: u128) -> PendingView {
        let slots = if self.waiting.contains_key(id) {
            closed_slot(self.slots, self.waiting[id])
        } else {
            self.slots
        };
        PendingView {
            waiting: self.waiting.insert(id, slots.len() as usize),
            slots: slots.push(Slot::Waiting),
        }
    }

    /// An answer can reach the hook: its ticket stands there and it waits.
    pub open spec fn can_answer(self, id: u128) -> bool {
        self.waiting.contains_key(id) && self.waiting[id] < self.slots.len()
            && self.slots[self.waiting[id] as int] == Slot::Waiting
    }

    /// The identifier answered.
    pub open spec fn resolved(self, id: u128, allow: bool) -> PendingView {
        PendingView {
            waiting: self.waiting.remove(id),
            slots: if self.can_answer(id) {
                self.slots.update(self.waiting[id] as int, Slot::Answered(allow))
            } else {
                self.slots
            },
        }
    }

    /// The identifier forgotten.
    pub open spec fn cancelled(self, id: u128) -> PendingView {
        PendingView {
            waiting: self.waiting.remove(id),
            slots: if self.waiting.contains_key(id) {
                closed_slot(self.slots, self.waiting[id])
            } else {
                self.slots
            },
        }
    }

    /// The hook behind a ticket gone away. Its identifier stays until it is next
    /// answered or forgotten.
    pub open spec fn abandoned(self, ticket: usize) -> PendingView {
        PendingView {
            waiting: self.waiting,
            slots: if ticket < self.slots.len() && self.slots[ticket as int] == Slot::Waiting {
                self.slots.update(ticket as int, Slot::Abandoned)
            } else {
                self.slots
            },
        }
    }

    /// What has become of a ticket; one that was never given out is closed.
    pub open spec fn slot(self, ticket: usize) -> Slot {
        if ticket < self.slots.len() {
            self.slots[ticket as int]
        } else {
            Slot::Closed
        }
    }

    /// Every identifier stands for a ticket that waits or was abandoned, no two
    /// for the same, and every ticket that waits has its identifier.
    pub open spec fn consistent(self) -> bool {
        &&& self.waiting.dom().finite()
        &&& forall|id: u128| #[trigger]
            self.waiting.contains_key(id) ==> self.waiting[id] < self.slots.len() && (
            self.slots[self.waiting[id] as int] == Slot::Waiting
                || self.slots[self.waiting[id] as int] == Slot::Abandoned)
        &&& forall|a: u128, b: u128| #[trigger]
            self.waiting.contains_key(a) && #[trigger] self.waiting.contains_key(b)
                && self.waiting[a] == self.waiting[b] ==> a == b
        &&& forall|t: int|
            0 <= t < self.slots.len() && #[trigger] self.slots[t] == Slot::Waiting ==> exists|
                id: u128,
            | #[trigger]
                self.waiting.contains_key(id) && self.waiting[id] == t
    }
}

impl Pending {
    /// Identifiers and tickets fit together.
    #[verifier::type_invariant]
    spec fn well_kept(self) -> bool {
        self@.consistent()
    }

    /// Nothing waits.
    pub fn new() -> (r: Pending)
        ensures
            r@.waiting == Map::<u128, usize>::empty(),
            r@.slots == Seq::<Slot>::empty(),
            r@.consistent(),
    {
        broadcast use group_hash_axioms;

        Pending { waiting: HashMap::new(), slots: Vec::new() }
    }

    /// Registers an approval and gives the ticket that its hook waits on.
    pub fn register(&mut self, id: u128) -> (r: usize)
        ensures
            final(self)@ == old(self)@.registered(id),
            r == final(self)@.waiting[id],
            final(self)@.can_answer(id),
            final(self)@.consistent(),
    {
        broadcast use group_hash_axioms;

        proof {
            use_type_invariant(&*self);
        }
        let ghost before = self@;
        let mut taken = Pending::new();
        std::mem::swap(self, &mut taken);
        let mut waiting = taken.waiting;
        let mut slots = taken.slots;
        if let Some(t) = waiting.get(&id) {
            let t = *t;
            if slots[t] == Slot::Waiting {
                slots.set(t, Slot::Closed);
            }
        }
        let ticket = slots.len();
        slots.push(Slot::Waiting);
        assert(slots.len() <= usize::MAX);
        waiting.insert(id, ticket);
        proof {
            lemma_registered(before, id);
        }
        *self = Pending { waiting, slots };
        ticket
    }

    /// Answers an approval. `false` where nothing waits on that identifier: it was
    /// answered already, its hook went away, or it never was.
    pub fn resolve(&mut self, id: u128, allow: bool) -> (r: bool)
        ensures
            final(self)@ == old(self)@.resolved(id, allow),
            r == old(self)@.can_answer(id),
            final(self)@.consistent(),
    {
        broadcast use group_hash_axioms;

        proof {
            use_type_invariant(&*self);
        }
        let ghost before = self@;
        let mut taken = Pending::new();
        std::mem::swap(self, &mut taken);
        let mut waiting = taken.waiting;
        let mut slots = taken.slots;
        let mut told = false;
        match waiting.remove(&id) {
            Some(t) => {
                if slots[t] == Slot::Waiting {
                    slots.set(t, Slot::Answered(allow));
                    told = true;
                }
            },
            None => {},
        }
        proof {
            lemma_resolved(before, id, allow);
            assert(waiting@ =~= before.waiting.remove(id));
        }
        *self = Pending { waiting, slots };
        told
    }

    /// Forgets an approval whose hook has gone away.
    pub fn cancel(&mut self, id: u128)
        ensures
            final(self)@ == old(self)@.cancelled(id),
            final(self)@.consistent(),
    {
        broadcast use group_hash_axioms;

        proof {
            use_type_invariant(&*self);
        }
        let ghost before = self@;
        let mut taken = Pending::new();
        std::mem::swap(self, &mut taken);
        let mut waiting = taken.waiting;
        let mut slots = taken.slots;
        match waiting.remove(&id) {
            Some(t) => {
                if slots[t] == Slot::Waiting {
                    slots.set(t, Slot::Closed);
                }
            },
            None => {},
        }
        proof {
            lemma_cancelled(before, id);
            assert(waiting@ =~= before.waiting.remove(id));
        }
        *self = Pending { waiting, slots };
    }

    /// Takes note that the hook behind a ticket has gone away.
    pub fn abandon(&mut self, ticket: usize)
        ensures
            final(self)@ == old(self)@.abandoned(ticket),
            final(self)@.consistent(),
    {
        proof {
            use_type_invariant(&*self);
        }
        let ghost before = self@;
        let mut taken = Pending::new();
        std::mem::swap(self, &mut taken);
        let waiting = taken.waiting;
        let mut slots = taken.slots;
        if ticket < slots.len() && slots[ticket] == Slot::Waiting {
            slots.set(ticket, Slot::Abandoned);
        }
        proof {
            lemma_abandoned(before, ticket);
        }
        *self = Pending { waiting, slots };
    }

    /// What has become of a ticket.
    pub fn poll(&self, ticket: usize) -> (r: Slot)
        ensures
            r == self@.slot(ticket),
    {
        if ticket < self.slots.len() {
            self.slots[ticket]
        } else {
            Slot::Closed
        }
    }

    /// How many identifiers are on record.
    pub fn len(&self) -> (r: usize)
        ensures
            r == self@.waiting.len(),
    {
        broadcast use group_hash_axioms;

        self.waiting.len()
    }

    /// Whether no identifier is on record.
    pub fn is_empty(&self) -> (r: bool)
        ensures
            r == (self@.waiting.len() == 0),
    {
        self.len() == 0
    }
}

// ---------------------------------------------------------------------------
// Consistency
// ---------------------------------------------------------------------------

pub proof fn lemma_registered(p: PendingView, id: u128)
    requires
        p.consistent(),
        p.slots.len() < usize::MAX,
    ensures
        p.registered(id).consistent(),
        p.registered(id).can_answer(id),
{
    let q = p.registered(id);
    let fresh = q.slots.len() - 1;
    assert(q.slots.len() == p.slots.len() + 1);
    assert forall|t: int|
        0 <= t < q.slots.len() && #[trigger] q.slots[t] == Slot::Waiting implies exists|x: u128|
        #[trigger] q.waiting.contains_key(x) && q.waiting[x] == t by {
        if t == fresh {
            assert(q.waiting.contains_key(id) && q.waiting[id] == t);
        } else {
            assert(p.slots[t] == Slot::Waiting);
            let x = choose|x: u128| #[trigger] p.waiting.contains_key(x) && p.waiting[x] == t;
            assert(q.waiting.contains_key(x) && q.waiting[x] == t);
        }
    }
    assert forall|x: u128| #[trigger] q.waiting.contains_key(x) implies q.waiting[x]
        < q.slots.len() && (q.slots[q.waiting[x] as int] == Slot::Waiting
        || q.slots[q.waiting[x] as int] == Slot::Abandoned) by {
        if x != id {
            assert(p.waiting.contains_key(x));
        }
    }
    assert forall|a: u128, b: u128| #[trigger]
        q.waiting.contains_key(a) && #[trigger] q.waiting.contains_key(b) && q.waiting[a]
            == q.waiting[b] implies a == b by {
        if a != id {
            assert(p.waiting.contains_key(a));
        }
        if b != id {
            assert(p.waiting.contains_key(b));
        }
    }
}

proof fn lemma_gone(p: PendingView, id: u128, slot: Slot)
    requires
        p.consistent(),
        slot != Slot::Waiting,
    ensures
        ({
            let slots = if p.can_answer(id) {
                p.slots.update(p.waiting[id] as int, slot)
            } else {
                p.slots
            };
            (PendingView { waiting: p.waiting.remove(id), slots }).consistent()
        }),
{
    let slots = if p.can_answer(id) {
        p.slots.update(p.waiting[id] as int, slot)
    } else {
        p.slots
    };
    let q = PendingView { waiting: p.waiting.remove(id), slots };
    assert forall|t: int|
        0 <= t < q.slots.len() && #[trigger] q.slots[t] == Slot::Waiting implies exists|x: u128|
        #[trigger] q.waiting.contains_key(x) && q.waiting[x] == t by {
        assert(p.slots[t] == Slot::Waiting);
        let x = choose|x: u128| #[trigger] p.waiting.contains_key(x) && p.waiting[x] == t;
        assert(x != id);
        assert(q.waiting.contains_key(x));
    }
    assert forall|x: u128| #[trigger] q.waiting.contains_key(x) implies q.waiting[x]
        < q.slots.len() && (q.slots[q.waiting[x] as int] == Slot::Waiting
        || q.slots[q.waiting[x] as int] == Slot::Abandoned) by {
        assert(p.waiting.contains_key(x));
        if p.waiting.contains_key(id) {
            assert(p.waiting[x] != p.waiting[id]);
        }
    }
    assert forall|a: u128, b: u128| #[trigger]
        q.waiting.contains_key(a) && #[trigger] q.waiting.contains_key(b) && q.waiting[a]
            == q.waiting[b] implies a == b by {
        assert(p.waiting.contains_key(a) && p.waiting.contains_key(b));
    }
}

pub proof fn lemma_resolved(p: PendingView, id: u128, allow: bool)
    requires
        p.consistent(),
    ensures
        p.resolved(id, allow).consistent(),
{
    lemma_gone(p, id, Slot::Answered(allow));
}

proof fn lemma_cancelled(p: PendingView, id: u128)
    requires
        p.consistent(),
    ensures
        p.cancelled(id).consistent(),
{
    lemma_gone(p, id, Slot::Closed);
}

pub proof fn lemma_abandoned(p: PendingView, ticket: usize)
    requires
        p.consistent(),
    ensures
        p.abandoned(ticket).consistent(),
{
    let q = p.abandoned(ticket);
    assert forall|t: int|
        0 <= t < q.slots.len() && #[trigger] q.slots[t] == Slot::Waiting implies exists|x: u128|
        #[trigger] q.waiting.contains_key(x) && q.waiting[x] == t by {
        assert(p.slots[t] == Slot::Waiting);
        let x = choose|x: u128| #[trigger] p.waiting.contains_key(x) && p.waiting[x] == t;
        assert(q.waiting.contains_key(x));
    }
    assert forall|x: u128| #[trigger] q.waiting.contains_key(x) implies q.waiting[x]
        < q.slots.len() && (q.slots[q.waiting[x] as int] == Slot::Waiting
        || q.slots[q.waiting[x] as int] == Slot::Abandoned) by {
        assert(p.waiting.contains_key(x));
    }
    assert forall|a: u128, b: u128| #[trigger]
        q.waiting.contains_key(a) && #[trigger] q.waiting.contains_key(b) && q.waiting[a]
            == q.waiting[b] implies a == b by {
        assert(p.waiting.contains_key(a) && p.waiting.contains_key(b));
    }
}

// ---------------------------------------------------------------------------
// Laws
// ---------------------------------------------------------------------------

/// A ticket reads as answered only by an explicit answer to the identifier that
/// it stands for: no other step makes an answer, and none changes one.
pub proof fn law_only_an_answer_answers(
    p: PendingView,
    id: u128,
    allow: bool,
    gone: usize,
    ticket: usize,
    told: bool,
)
    requires
        p.consistent(),
        p.slots.len() < usize::MAX,
    ensures
        p.registered(id).slot(ticket) == Slot::Answered(told) <==> p.slot(ticket)
            == Slot::Answered(told),
        p.cancelled(id).slot(ticket) == Slot::Answered(told) <==> p.slot(ticket)
            == Slot::Answered(told),
        p.abandoned(gone).slot(ticket) == Slot::Answered(told) <==> p.slot(ticket)
            == Slot::Answered(told),
        p.resolved(id, allow).slot(ticket) == Slot::Answered(told) <==> p.slot(ticket)
            == Slot::Answered(told) || (p.can_answer(id) && p.waiting[id] == ticket && allow
            == told),
{
}

/// An approval can be answered once: what is registered and answered cannot be
/// answered again, and neither can one that was forgotten or whose hook is gone.
pub proof fn law_answered_once(p: PendingView, id: u128, first: bool)
    requires
        p.consistent(),
        p.slots.len() < usize::MAX,
    ensures
        ({
            let q = p.registered(id);
            let ticket = q.waiting[id];
            &&& q.can_answer(id)
            &&& q.resolved(id, first).slot(ticket) == Slot::Answered(first)
            &&& !q.resolved(id, first).can_answer(id)
            &&& !q.cancelled(id).can_answer(id)
            &&& !q.abandoned(ticket).can_answer(id)
            &&& !q.abandoned(ticket).resolved(id, first).waiting.contains_key(id)
        }),
{
    lemma_registered(p, id);
}

} // verus!
