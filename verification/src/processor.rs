//! The single-flight registry: of all the requests for one derived artifact
//! that arrive while it is being computed, one computes and the others wait
//! for its outcome.

use vstd::prelude::*;
use crate::repo::table::{Key, Table};

verus! {

/// The part a request plays for its key.
#[derive(Clone, Copy, Debug, PartialEq, Eq, Structural)]
pub enum Role {
    /// The request runs the computation.
    Driver,
    /// The request waits for the outcome, under this ticket: its place among
    /// the waiters for its key, counted from zero in the order of arrival.
    Waiter(usize),
}

/// The part a request plays for its key, with a ticket of any size.
pub enum Part {
    Driver,
    Waiter(nat),
}

impl Role {
    /// The part that the role stands for.
    pub open spec fn part(self) -> Part {
        match self {
            Role::Driver => Part::Driver,
            Role::Waiter(t) => Part::Waiter(t as nat),
        }
    }
}

/// The mathematical value of the registry: for each key in flight, and for
/// each waiter for it in the order of arrival, whether the waiter still
/// waits.
pub struct Flights {
    pub waiting: Map<Seq<u8>, Seq<bool>>,
}

/// The tickets of the waiters that still wait, in the order of arrival.
pub open spec fn still_waiting(waiters: Seq<bool>) -> Seq<nat>
    decreases waiters.len(),
{
    if waiters.len() == 0 {
        Seq::empty()
    } else if waiters.last() {
        still_waiting(waiters.drop_last()).push((waiters.len() - 1) as nat)
    } else {
        still_waiting(waiters.drop_last())
    }
}

impl Flights {
    /// Whether a computation for `key` is registered.
    pub open spec fn in_flight(self, key: Seq<u8>) -> bool {
        self.waiting.contains_key(key)
    }

    /// A request for `key` arrives. The first request for a key becomes its
    /// driver. Every request for a key in flight becomes a waiter, with the
    /// number of the waiters before it as its ticket.
    pub open spec fn join(self, key: Seq<u8>) -> (Flights, Part) {
        if !self.waiting.contains_key(key) {
            (Flights { waiting: self.waiting.insert(key, Seq::empty()) }, Part::Driver)
        } else {
            (
                Flights { waiting: self.waiting.insert(key, self.waiting[key].push(true)) },
                Part::Waiter(self.waiting[key].len()),
            )
        }
    }

    /// The computation for `key` has come to its end, well or badly: the
    /// registration is cleared, and the waiters to whom the outcome goes are
    /// handed out.
    pub open spec fn complete(self, key: Seq<u8>) -> (Flights, Seq<nat>) {
        if self.waiting.contains_key(key) {
            (Flights { waiting: self.waiting.remove(key) }, still_waiting(self.waiting[key]))
        } else {
            (self, Seq::empty())
        }
    }

    /// The waiter with `ticket` gives up waiting for `key`.
    pub open spec fn leave(self, key: Seq<u8>, ticket: nat) -> Flights {
        if self.waiting.contains_key(key) && ticket < self.waiting[key].len() {
            Flights {
                waiting: self.waiting.insert(key, self.waiting[key].update(ticket as int, false)),
            }
        } else {
            self
        }
    }

    /// `n` requests for `key` arrive one after the other: the state
    /// afterwards and the part that each request plays.
    pub open spec fn joins(self, key: Seq<u8>, n: nat) -> (Flights, Seq<Part>)
        decreases n,
    {
        if n == 0 {
            (self, Seq::empty())
        } else {
            let (s, parts) = self.joins(key, (n - 1) as nat);
            let (t, part) = s.join(key);
            (t, parts.push(part))
        }
    }
}

/// A ticket is among those that still wait exactly when its waiter has
/// arrived and has not given up.
pub proof fn lemma_still_waiting(waiters: Seq<bool>, ticket: nat)
    ensures
        still_waiting(waiters).contains(ticket) <==> ticket < waiters.len() && waiters[ticket as int],
    decreases waiters.len(),
{
    if waiters.len() > 0 {
        let front = waiters.drop_last();
        let last = (waiters.len() - 1) as nat;
        lemma_still_waiting(front, ticket);
        let before = still_waiting(front);
        if waiters.last() {
            let all = before.push(last);
            if all.contains(ticket) {
                let i = choose|i: int| 0 <= i < all.len() && all[i] == ticket;
                if i < before.len() {
                    assert(before[i] == ticket);
                }
            }
            if ticket < waiters.len() && waiters[ticket as int] {
                if ticket == last {
                    assert(all[before.len() as int] == ticket);
                } else {
                    assert(front[ticket as int] == waiters[ticket as int]);
                    let i = choose|i: int| 0 <= i < before.len() && before[i] == ticket;
                    assert(all[i] == ticket);
                }
            }
        } else {
            if ticket < waiters.len() && waiters[ticket as int] {
                assert(front[ticket as int] == waiters[ticket as int]);
            }
        }
    }
}

/// Where every waiter still waits, the tickets are the numbers from zero on.
proof fn lemma_all_still_waiting(waiters: Seq<bool>)
    requires
        forall|i: int| 0 <= i < waiters.len() ==> waiters[i],
    ensures
        still_waiting(waiters) == Seq::new(waiters.len(), |i: int| i as nat),
    decreases waiters.len(),
{
    if waiters.len() > 0 {
        let front = waiters.drop_last();
        assert forall|i: int| 0 <= i < front.len() implies front[i] by {
            assert(front[i] == waiters[i]);
        }
        lemma_all_still_waiting(front);
        assert(still_waiting(waiters) =~= Seq::new(waiters.len(), |i: int| i as nat));
    } else {
        assert(still_waiting(waiters) =~= Seq::new(waiters.len(), |i: int| i as nat));
    }
}

/// Single-flight coalescing. Of any number of requests for a key that is not
/// in flight, arriving before the computation ends, the first is the driver
/// and every other one is a waiter with a ticket of its own; the end of the
/// computation clears the registration and delivers its outcome to exactly
/// those waiters. So the computation runs once and every request sees its
/// outcome.
pub proof fn lemma_single_flight(s: Flights, key: Seq<u8>, n: nat)
    requires
        !s.in_flight(key),
        n >= 1,
    ensures
        ({
            let (t, parts) = s.joins(key, n);
            &&& parts.len() == n
            &&& parts[0] == Part::Driver
            &&& forall|i: int| 1 <= i < n ==> parts[i] == Part::Waiter((i - 1) as nat)
            &&& t.in_flight(key)
            &&& t.waiting[key] == Seq::new((n - 1) as nat, |i: int| true)
            &&& t.complete(key).1 == Seq::new((n - 1) as nat, |i: int| i as nat)
            &&& !t.complete(key).0.in_flight(key)
        }),
    decreases n,
{
    let (t, parts) = s.joins(key, n);
    if n > 1 {
        lemma_single_flight(s, key, (n - 1) as nat);
        assert(t.waiting[key] =~= Seq::new((n - 1) as nat, |i: int| true));
    } else {
        assert(s.joins(key, 0).0 == s);
        assert(parts =~= seq![Part::Driver]);
        assert(t.waiting[key] =~= Seq::new(0, |i: int| true));
    }
    lemma_all_still_waiting(t.waiting[key]);
}

/// Failures are not kept: once a computation has ended, the next request for
/// its key is a driver again.
pub proof fn lemma_retry_after_completion(s: Flights, key: Seq<u8>)
    ensures
        s.complete(key).0.join(key).1 == Part::Driver,
{
}

/// Cancel-safety of a flight. A computation in flight is bound to no
/// request: whichever request arrives or gives up, the driver's included,
/// the flight stays registered, and the waiters that have not given up are
/// served when the computation ends.
pub proof fn lemma_flight_outlives_requests(s: Flights, key: Seq<u8>, other: Seq<u8>, ticket: nat)
    requires
        s.in_flight(key),
    ensures
        s.join(other).0.in_flight(key),
        s.leave(other, ticket).in_flight(key),
        other != key ==> s.leave(other, ticket).waiting[key] == s.waiting[key],
        forall|t: nat|
            t != ticket && s.complete(key).1.contains(t) ==> s.leave(key, ticket).complete(
                key,
            ).1.contains(t),
        forall|t: nat|
            s.complete(key).1.contains(t) ==> s.join(key).0.complete(key).1.contains(t),
{
    let before = s.waiting[key];
    let left = s.leave(key, ticket).waiting[key];
    let joined = s.join(key).0.waiting[key];
    assert forall|t: nat| t != ticket && still_waiting(before).contains(t) implies still_waiting(
        left,
    ).contains(t) by {
        lemma_still_waiting(before, t);
        lemma_still_waiting(left, t);
    }
    assert forall|t: nat| still_waiting(before).contains(t) implies still_waiting(
        joined,
    ).contains(t) by {
        lemma_still_waiting(before, t);
        lemma_still_waiting(joined, t);
    }
}

/// A request for one key does not touch the flight of another.
pub proof fn lemma_keys_independent(s: Flights, key: Seq<u8>, other: Seq<u8>)
    requires
        key != other,
    ensures
        s.join(key).0.in_flight(other) == s.in_flight(other),
        s.in_flight(other) ==> s.join(key).0.waiting[other] == s.waiting[other],
        s.complete(key).0.in_flight(other) == s.in_flight(other),
        s.in_flight(other) ==> s.complete(key).0.waiting[other] == s.waiting[other],
{
}

/// `tickets` are the given tickets.
pub open spec fn holds_tickets(tickets: Seq<usize>, wanted: Seq<nat>) -> bool {
    tickets.len() == wanted.len() && forall|i: int|
        0 <= i < wanted.len() ==> (#[trigger] tickets[i]) as nat == wanted[i]
}

/// The registry of computations in flight.
pub struct Processor {
    waiting: Table<Vec<u8>, Vec<bool>>,
}

impl View for Processor {
    type V = Flights;

    closed spec fn view(&self) -> Flights {
        Flights { waiting: self.waiting@ }
    }
}

impl Processor {
    /// A registry with nothing in flight.
    pub fn new() -> (r: Self)
        ensures
            r@ == (Flights { waiting: Map::empty() }),
    {
        Processor { waiting: Table::new() }
    }

    /// Whether a computation for `key` is registered.
    pub fn is_in_flight(&self, key: &Vec<u8>) -> (r: bool)
        ensures
            r == self@.in_flight(key@),
    {
        self.waiting.contains_key(key)
    }

    /// Registers a request for `key` and says which part it plays. No
    /// request is turned away.
    pub fn join(&mut self, key: &Vec<u8>) -> (r: Role)
        ensures
            final(self)@ == old(self)@.join(key@).0,
            r.part() == old(self)@.join(key@).1,
    {
        match self.waiting.remove(key) {
            Some(mut waiters) => {
                let ghost before = waiters@;
                let ticket = waiters.len();
                waiters.push(true);
                self.waiting.insert(key.duplicate(), waiters);
                assert(self.waiting@ =~= old(self).waiting@.insert(key@, before.push(true)));
                Role::Waiter(ticket)
            },
            None => {
                self.waiting.insert(key.duplicate(), Vec::new());
                assert(self.waiting@ =~= old(self).waiting@.insert(key@, Seq::empty()));
                Role::Driver
            },
        }
    }

    /// Takes note that the computation for `key` has come to its end, well
    /// or badly, and hands back the tickets of the waiters to whom its
    /// outcome goes, in the order of their arrival.
    pub fn complete(&mut self, key: &Vec<u8>) -> (r: Vec<usize>)
        ensures
            final(self)@ == old(self)@.complete(key@).0,
            holds_tickets(r@, old(self)@.complete(key@).1),
    {
        match self.waiting.remove(key) {
            Some(waiters) => {
                let mut out: Vec<usize> = Vec::new();
                let mut i: usize = 0;
                while i < waiters.len()
                    invariant
                        i <= waiters@.len(),
                        holds_tickets(out@, still_waiting(waiters@.take(i as int))),
                    decreases waiters@.len() - i,
                {
                    proof {
                        assert(waiters@.take(i + 1).drop_last() =~= waiters@.take(i as int));
                        assert(waiters@.take(i + 1).last() == waiters@[i as int]);
                    }
                    if waiters[i] {
                        out.push(i);
                    }
                    i += 1;
                }
                assert(waiters@.take(waiters@.len() as int) =~= waiters@);
                out
            },
            None => {
                assert(self.waiting@ =~= old(self).waiting@);
                Vec::new()
            },
        }
    }

    /// Takes note that the waiter with `ticket` has given up waiting for
    /// `key`.
    pub fn leave(&mut self, key: &Vec<u8>, ticket: usize)
        ensures
            final(self)@ == old(self)@.leave(key@, ticket as nat),
    {
        match self.waiting.remove(key) {
            Some(mut waiters) => {
                let ghost before = waiters@;
                if ticket < waiters.len() {
                    waiters.set(ticket, false);
                    self.waiting.insert(key.duplicate(), waiters);
                    assert(self.waiting@ =~= old(self).waiting@.insert(
                        key@,
                        before.update(ticket as int, false),
                    ));
                } else {
                    self.waiting.insert(key.duplicate(), waiters);
                    assert(self.waiting@ =~= old(self).waiting@);
                }
            },
            None => {
                assert(self.waiting@ =~= old(self).waiting@);
            },
        }
    }
}

/// The number of conversions that may run at once on a machine with `cpus`
/// processors: one less than there are processors, and at least one.
pub open spec fn permits_for(cpus: usize) -> usize {
    if cpus > 2 {
        (cpus - 1) as usize
    } else {
        1
    }
}

/// The number of conversions that may run at once on a machine with `cpus`
/// processors.
pub fn process_permits(cpus: usize) -> (r: usize)
    ensures
        r == permits_for(cpus),
        r >= 1,
{
    let spare = cpus.saturating_sub(1);
    if spare > 1 {
        spare
    } else {
        1
    }
}

/// `num_cpus::get`: the number of processors of this machine. Nothing is
/// promised of the value.
#[verifier::external_body]
fn available_cpus() -> (r: usize) {
    num_cpus::get()
}

/// The number of conversions that may run at once on this machine: at least
/// one, whatever the machine says of its processors.
pub fn permits_for_this_machine() -> (r: usize)
    ensures
        r >= 1,
{
    process_permits(available_cpus())
}

} // verus!
