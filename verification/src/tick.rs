//! Ticks of a sender.

use vstd::prelude::*;

verus! {

/// Tick at which a sender collected its changes.
///
/// Ticks wrap around: of two different ticks the later one is that which is reached from the
/// other in less than half the range.
#[derive(Clone, Copy, Debug, PartialEq, Eq, Structural, Hash)]
pub struct RepliconTick(pub u32);

impl RepliconTick {
    /// How many ticks after `other` this one comes, around the end of the range if need be.
    pub open spec fn distance(self, other: RepliconTick) -> int {
        if self.0 >= other.0 {
            self.0 - other.0
        } else {
            self.0 - other.0 + 0x1_0000_0000
        }
    }

    /// This tick is later than the other.
    pub open spec fn after(self, other: RepliconTick) -> bool {
        0 < self.distance(other) < 0x8000_0000
    }

    /// This tick is earlier than the other.
    pub open spec fn before(self, other: RepliconTick) -> bool {
        self.distance(other) >= 0x8000_0000
    }

    /// How many ticks after `other` this one comes.
    pub fn since(self, other: RepliconTick) -> (ticks: u32)
        ensures
            ticks == self.distance(other),
    {
        self.0.wrapping_sub(other.0)
    }

    /// Whether this tick is later than the other.
    pub fn is_after(self, other: RepliconTick) -> (later: bool)
        ensures
            later == self.after(other),
    {
        let ticks = self.since(other);
        0 < ticks && ticks < 0x8000_0000
    }

    /// Whether this tick is earlier than the other.
    pub fn is_before(self, other: RepliconTick) -> (earlier: bool)
        ensures
            earlier == self.before(other),
    {
        self.since(other) >= 0x8000_0000
    }
}

impl Default for RepliconTick {
    /// The tick before anything was sent.
    fn default() -> (tick: RepliconTick)
        ensures
            tick == RepliconTick(0),
    {
        RepliconTick(0)
    }
}

/// A tick that comes some ticks after another, around the end of the range if need be, is that far
/// from it. It is later if that is less than half the range, and earlier if it is not.
pub proof fn lemma_ticks_go_round(tick: RepliconTick, ticks: u32)
    ensures
        ({
            let reached = RepliconTick(((tick.0 + ticks) % 0x1_0000_0000) as u32);
            &&& reached.distance(tick) == ticks
            &&& reached.after(tick) <==> 0 < ticks < 0x8000_0000
            &&& reached.before(tick) <==> ticks >= 0x8000_0000
        }),
{
}

/// Of two ticks one is later than the other if and only if the other is earlier, unless they are
/// half the range apart: then each is earlier than the other.
pub proof fn lemma_later_or_earlier(one: RepliconTick, other: RepliconTick)
    ensures
        one.after(other) ==> other.before(one) && !one.before(other),
        one == other <==> !one.after(other) && !one.before(other),
        one.distance(other) != 0x8000_0000 ==> (one.before(other) <==> other.after(one)),
{
}

} // verus!
