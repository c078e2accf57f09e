//! Change detection: the polling state machine.
//!
//! The poller owns the last known public address. Each tick it is handed the
//! resolver's answer (an address, or nothing on lookup failure) and reports
//! exactly one [`ChangeEvent`]. The state moves to the resolved address
//! before the change event is reported, so a change is reported at most once.

use vstd::prelude::*;

use crate::addr::Address;

verus! {

/// How many seconds pass between poll ticks unless configured otherwise.
pub const DEFAULT_CHECK_INTERVAL_SECS: u64 = 300;

/// What one poll tick observed. Produced once per tick; consumed exactly
/// once by the reconciler, which acts only on `AddressChanged`.
#[derive(Clone, Copy, Debug, PartialEq, Eq, Structural)]
pub enum ChangeEvent {
    /// The resolved address differs from the last known one.
    AddressChanged { old_addr: Address, new_addr: Address },
    /// The resolver could not produce an address this tick.
    LookupFailed,
    /// The resolved address equals the last known one.
    Unchanged,
}

/// The poller's only mutable state: the last address a successful lookup
/// returned. Seeded once at startup, updated only by successful ticks.
#[derive(Clone, Copy, Debug, PartialEq, Eq, Structural)]
pub struct PollerState {
    pub last_known_address: Address,
}

/// The event one tick reports, given the last known address and the
/// resolver's answer.
pub open spec fn tick_event(prev: Address, lookup: Option<Address>) -> ChangeEvent {
    match lookup {
        Option::None => ChangeEvent::LookupFailed,
        Option::Some(a) => if a == prev {
            ChangeEvent::Unchanged
        } else {
            ChangeEvent::AddressChanged { old_addr: prev, new_addr: a }
        },
    }
}

/// The last known address after one tick: a successful lookup replaces it,
/// a failed lookup leaves it unchanged.
pub open spec fn tick_next(prev: Address, lookup: Option<Address>) -> Address {
    match lookup {
        Option::None => prev,
        Option::Some(a) => a,
    }
}

/// The last known address after a whole sequence of resolver answers,
/// starting from the seed address.
pub open spec fn state_after(seed: Address, lookups: Seq<Option<Address>>) -> Address
    decreases lookups.len(),
{
    if lookups.len() == 0 {
        seed
    } else {
        tick_next(state_after(seed, lookups.drop_last()), lookups.last())
    }
}

/// The events a poller seeded with `seed` reports for a sequence of
/// resolver answers, one per tick, in tick order.
pub open spec fn events_after(seed: Address, lookups: Seq<Option<Address>>) -> Seq<ChangeEvent> {
    Seq::new(lookups.len(), |i: int| tick_event(state_after(seed, lookups.take(i)), lookups[i]))
}

impl PollerState {
    /// Seeds the state with the one blocking startup lookup. (If that lookup
    /// fails there is no meaningful default address; the caller must treat
    /// that as a fatal startup error and never build a `PollerState`.)
    pub fn seed(addr: Address) -> (r: PollerState)
        ensures
            r.last_known_address == addr,
    {
        PollerState { last_known_address: addr }
    }

    /// One poll tick: `lookup` is the resolver's answer (`None` on lookup
    /// failure). Reports exactly one event and moves the state to the
    /// resolved address before the event is handed out.
    pub fn tick(&mut self, lookup: Option<Address>) -> (ev: ChangeEvent)
        ensures
            ev == tick_event(old(self).last_known_address, lookup),
            final(self).last_known_address == tick_next(old(self).last_known_address, lookup),
    {
        match lookup {
            Option::None => ChangeEvent::LookupFailed,
            Option::Some(a) => {
                if a == self.last_known_address {
                    ChangeEvent::Unchanged
                } else {
                    let prev = self.last_known_address;
                    self.last_known_address = a;
                    ChangeEvent::AddressChanged { old_addr: prev, new_addr: a }
                }
            },
        }
    }
}

/// One more tick extends the event sequence by exactly the event
/// [`PollerState::tick`] reports from the state the earlier answers left
/// behind: a polling loop realizes [`events_after`] answer by answer.
pub proof fn lemma_events_after_step(
    seed: Address,
    lookups: Seq<Option<Address>>,
    lookup: Option<Address>,
)
    ensures
        state_after(seed, lookups.push(lookup)) == tick_next(state_after(seed, lookups), lookup),
        events_after(seed, lookups.push(lookup)) == events_after(seed, lookups).push(
            tick_event(state_after(seed, lookups), lookup),
        ),
{
    let extended = lookups.push(lookup);
    assert(extended.drop_last() =~= lookups);
    assert forall|i: int| 0 <= i < extended.len() implies events_after(seed, extended)[i]
        == events_after(seed, lookups).push(
        tick_event(state_after(seed, lookups), lookup),
    )[i] by {
        if i < lookups.len() {
            assert(extended.take(i) =~= lookups.take(i));
        } else {
            assert(extended.take(i) =~= lookups);
        }
    }
    assert(events_after(seed, extended) =~= events_after(seed, lookups).push(
        tick_event(state_after(seed, lookups), lookup),
    ));
}

/// Exactly one event is reported per tick, and a tick's event is
/// `AddressChanged` if and only if the lookup succeeded with an address
/// different from the last known address before that tick; the event then
/// carries that old address and the newly resolved one.
pub proof fn lemma_one_event_per_tick(seed: Address, lookups: Seq<Option<Address>>)
    ensures
        events_after(seed, lookups).len() == lookups.len(),
        forall|i: int|
            0 <= i < lookups.len() ==> ((#[trigger] events_after(seed, lookups)[i])
                is AddressChanged <==> lookups[i] is Some && lookups[i]->0 != state_after(
                seed,
                lookups.take(i),
            )),
        forall|i: int|
            0 <= i < lookups.len() ==> ((#[trigger] events_after(seed, lookups)[i]) matches
            ChangeEvent::AddressChanged { old_addr, new_addr } ==> old_addr == state_after(
                seed,
                lookups.take(i),
            ) && Option::Some(new_addr) == lookups[i]),
{
}

} // verus!
