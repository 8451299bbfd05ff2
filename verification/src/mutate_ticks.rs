//! Ticks for which all mutate messages arrived.

use vstd::prelude::*;

use crate::tick::RepliconTick;

verus! {

/// How many ticks are tracked.
pub const TRACKED_TICKS: usize = 64;

/// Mutate messages of one tick.
#[derive(Clone, Copy, Debug, PartialEq, Eq, Structural)]
pub struct TickMessages {
    /// How many the sender split the tick's mutations into.
    pub count: usize,
    /// How many arrived.
    pub received: usize,
}

/// Mutate messages that arrived for the last ticks.
///
/// The slot `n` stands for the tick `n` before the last one.
pub struct ServerMutateTicks {
    slots: Vec<TickMessages>,
    last_tick: RepliconTick,
}

/// What a [`ServerMutateTicks`] knows.
#[verifier::ext_equal]
pub struct MutateTicks {
    pub slots: Seq<TickMessages>,
    pub last_tick: RepliconTick,
}

/// Slots of ticks for which nothing arrived.
pub open spec fn no_messages(ticks: int) -> Seq<TickMessages> {
    Seq::new(ticks as nat, |i: int| TickMessages { count: 0, received: 0 })
}

impl MutateTicks {
    /// Nothing arrived yet.
    pub open spec fn none() -> MutateTicks {
        MutateTicks { slots: no_messages(TRACKED_TICKS as int), last_tick: RepliconTick(0) }
    }

    /// With this tick as the last one where it is later: the slots move back by the ticks between.
    pub open spec fn reaching(self, tick: RepliconTick) -> MutateTicks {
        if tick.after(self.last_tick) {
            let ticks = tick.distance(self.last_tick);
            let slots = if ticks < TRACKED_TICKS {
                no_messages(ticks) + self.slots.take(TRACKED_TICKS - ticks)
            } else {
                no_messages(TRACKED_TICKS as int)
            };
            MutateTicks { slots, last_tick: tick }
        } else {
            self
        }
    }

    /// The tick's slot.
    pub open spec fn ago(self, tick: RepliconTick) -> int {
        self.last_tick.distance(tick)
    }

    /// With one more message for this tick, out of `count`. A tick that is no longer tracked
    /// changes nothing.
    pub open spec fn confirmed(self, tick: RepliconTick, count: usize) -> MutateTicks {
        let reached = self.reaching(tick);
        let ago = reached.ago(tick);
        if ago < TRACKED_TICKS {
            let received = reached.slots[ago].received.wrapping_add(1);
            MutateTicks {
                slots: reached.slots.update(ago, TickMessages { count, received }),
                last_tick: reached.last_tick,
            }
        } else {
            reached
        }
    }

    /// All messages of a tracked tick arrived.
    pub open spec fn complete(self, tick: RepliconTick) -> bool {
        &&& self.ago(tick) < TRACKED_TICKS
        &&& self.slots[self.ago(tick)].received == self.slots[self.ago(tick)].count
    }

    /// The tick counts as received: it is not later than the last one, and all its messages
    /// arrived or it is no longer tracked.
    pub open spec fn has(self, tick: RepliconTick) -> bool {
        &&& !tick.after(self.last_tick)
        &&& self.ago(tick) < TRACKED_TICKS ==> self.slots[self.ago(tick)].received > 0
            && self.complete(tick)
    }
}

impl View for ServerMutateTicks {
    type V = MutateTicks;

    closed spec fn view(&self) -> MutateTicks {
        MutateTicks { slots: self.slots@, last_tick: self.last_tick }
    }
}

fn empty_slots(ticks: usize) -> (slots: Vec<TickMessages>)
    ensures
        slots@ == no_messages(ticks as int),
{
    let mut slots: Vec<TickMessages> = Vec::new();
    let mut i: usize = 0;
    while i < ticks
        invariant
            i <= ticks,
            slots@ == no_messages(i as int),
        decreases ticks - i,
    {
        slots.push(TickMessages { count: 0, received: 0 });
        i = i + 1;
    }
    slots
}

impl ServerMutateTicks {
    /// There is a slot for each tracked tick.
    pub open spec fn wf(&self) -> bool {
        self@.slots.len() == TRACKED_TICKS
    }

    /// Nothing arrived yet.
    pub fn new() -> (ticks: ServerMutateTicks)
        ensures
            ticks.wf(),
            ticks@ == MutateTicks::none(),
    {
        ServerMutateTicks { slots: empty_slots(TRACKED_TICKS), last_tick: RepliconTick(0) }
    }

    /// Forgets all messages.
    pub fn clear(&mut self)
        ensures
            final(self).wf(),
            final(self)@ == MutateTicks::none(),
    {
        *self = ServerMutateTicks::new();
    }

    /// Whether the tick counts as received.
    pub fn contains(&self, tick: RepliconTick) -> (found: bool)
        requires
            self.wf(),
        ensures
            found == self@.has(tick),
    {
        if tick.is_after(self.last_tick) {
            return false;
        }
        let ago = self.last_tick.since(tick);
        if ago < TRACKED_TICKS as u32 {
            let messages = self.slots[ago as usize];
            messages.received > 0 && messages.received == messages.count
        } else {
            true
        }
    }

    /// Counts a message for the tick, which was split into `count` messages. Whether it was the
    /// last of them comes back.
    pub fn confirm(&mut self, tick: RepliconTick, count: usize) -> (complete: bool)
        requires
            old(self).wf(),
        ensures
            final(self).wf(),
            final(self)@ == old(self)@.confirmed(tick, count),
            complete == final(self)@.complete(tick),
    {
        if tick.is_after(self.last_tick) {
            let ticks = tick.since(self.last_tick);
            let skipped: usize = if ticks < TRACKED_TICKS as u32 {
                ticks as usize
            } else {
                TRACKED_TICKS
            };
            let mut slots = empty_slots(skipped);
            let mut i: usize = 0;
            while i < TRACKED_TICKS - skipped
                invariant
                    skipped <= TRACKED_TICKS,
                    i <= TRACKED_TICKS - skipped,
                    self.slots@.len() == TRACKED_TICKS,
                    slots@ == no_messages(skipped as int) + self.slots@.take(i as int),
                decreases TRACKED_TICKS - skipped - i,
            {
                slots.push(self.slots[i]);
                i = i + 1;
            }
            assert(ticks >= TRACKED_TICKS ==> slots@ =~= no_messages(TRACKED_TICKS as int));
            self.slots = slots;
            self.last_tick = tick;
        }
        let ago = self.last_tick.since(tick);
        if ago < TRACKED_TICKS as u32 {
            let received = self.slots[ago as usize].received.wrapping_add(1);
            self.slots.set(ago as usize, TickMessages { count, received });
            received == count
        } else {
            false
        }
    }
}

/// After the last of its messages a tick counts as received.
pub proof fn lemma_complete_is_received(ticks: MutateTicks, tick: RepliconTick, count: usize)
    requires
        ticks.slots.len() == TRACKED_TICKS,
        count > 0,
        ticks.confirmed(tick, count).complete(tick),
    ensures
        ticks.confirmed(tick, count).has(tick),
{
}

/// A message changes nothing that is known of another tracked tick, but for how long ago it was.
pub proof fn lemma_confirm_keeps_others(
    ticks: MutateTicks,
    tick: RepliconTick,
    count: usize,
    other: RepliconTick,
)
    requires
        ticks.slots.len() == TRACKED_TICKS,
        other != tick,
        !other.after(ticks.last_tick),
        ticks.ago(other) < TRACKED_TICKS,
        ticks.confirmed(tick, count).ago(other) < TRACKED_TICKS,
    ensures
        ticks.confirmed(tick, count).slots[ticks.confirmed(tick, count).ago(other)]
            == ticks.slots[ticks.ago(other)],
{
}

impl MutateTicks {
    /// How many messages of a tick arrived before, as far as that is known.
    pub open spec fn arrived(self, tick: RepliconTick) -> usize {
        if tick.after(self.last_tick) {
            0
        } else {
            self.slots[self.last_tick.distance(tick)].received
        }
    }

    /// Messages of the tick are counted: it is a new one, or one of the last ticks.
    pub open spec fn counts(self, tick: RepliconTick) -> bool {
        tick.after(self.last_tick) || self.last_tick.distance(tick) < 64
    }
}

/// A message of a tick that is counted is one more of the tick, out of as many as it says. All of
/// them arrived if and only if that makes as many. A message of a tick that is no longer counted
/// changes nothing, and completes nothing.
pub proof fn lemma_confirm_counts(ticks: MutateTicks, tick: RepliconTick, count: usize)
    requires
        ticks.slots.len() == 64,
    ensures
        ({
            let after = ticks.confirmed(tick, count);
            let arrived = ticks.arrived(tick).wrapping_add(1);
            &&& after.slots.len() == 64
            &&& after.last_tick == if tick.after(ticks.last_tick) {
                tick
            } else {
                ticks.last_tick
            }
            &&& ticks.counts(tick) ==> {
                &&& after.last_tick.distance(tick) < 64
                &&& after.slots[after.last_tick.distance(tick)].received == arrived
                &&& after.slots[after.last_tick.distance(tick)].count == count
                &&& after.complete(tick) <==> arrived == count
            }
            &&& !ticks.counts(tick) ==> after == ticks && !after.complete(tick)
        }),
{
}

/// No message arrived of the ticks between the last one and a later one.
pub proof fn lemma_skipped_ticks_are_empty(
    ticks: MutateTicks,
    tick: RepliconTick,
    count: usize,
    skipped: RepliconTick,
)
    requires
        ticks.slots.len() == 64,
        tick.after(ticks.last_tick),
        0 < tick.distance(skipped) < 64,
        tick.distance(skipped) < tick.distance(ticks.last_tick),
    ensures
        ({
            let after = ticks.confirmed(tick, count);
            &&& after.slots[tick.distance(skipped)].received == 0
            &&& after.slots[tick.distance(skipped)].count == 0
            &&& !after.has(skipped)
        }),
{
}

/// A tick counts as received if it is not later than the last one and, as long as its messages are
/// counted, at least one of them arrived and as many as it was split into.
pub proof fn lemma_received_ticks(ticks: MutateTicks, tick: RepliconTick)
    ensures
        ticks.has(tick) <==> !tick.after(ticks.last_tick) && (ticks.last_tick.distance(tick) >= 64 || (
        ticks.slots[ticks.last_tick.distance(tick)].received > 0
            && ticks.slots[ticks.last_tick.distance(tick)].received
            == ticks.slots[ticks.last_tick.distance(tick)].count)),
{
}

/// At first no message arrived of any tick.
pub proof fn lemma_nothing_arrived()
    ensures
        MutateTicks::none().slots.len() == 64,
        MutateTicks::none().last_tick == RepliconTick(0),
        forall|i: int|
            0 <= i < 64 ==> (#[trigger] MutateTicks::none().slots[i]).received == 0
                && MutateTicks::none().slots[i].count == 0,
{
}

} // verus!
