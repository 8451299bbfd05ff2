//! Ticks at which an entity was replicated.

use vstd::prelude::*;

use crate::tick::RepliconTick;

verus! {

/// The last tick for which an entity was replicated, and which of the ticks before it were.
///
/// Bit `n` of the mask stands for the tick `n` before the last one.
#[derive(Clone, Copy, Debug, PartialEq, Eq, Structural)]
pub struct ConfirmHistory {
    pub mask: u64,
    pub last_tick: RepliconTick,
}

impl ConfirmHistory {
    /// Whether the tick this long before the last one was confirmed.
    pub open spec fn confirmed(self, ago: u32) -> bool {
        (self.mask >> ago) & 1 == 1
    }

    /// Whether the tick counts as confirmed: it is not later than the last one, and it was
    /// confirmed or is too old to be known.
    pub open spec fn has(self, tick: RepliconTick) -> bool {
        &&& !tick.after(self.last_tick)
        &&& self.last_tick.distance(tick) < 64 ==> self.confirmed(
            self.last_tick.distance(tick) as u32,
        )
    }

    /// The history with this tick as its only one.
    pub open spec fn first(tick: RepliconTick) -> ConfirmHistory {
        ConfirmHistory { mask: 1, last_tick: tick }
    }

    /// This history with a new last tick, which is confirmed. What was confirmed moves back by the
    /// ticks between, and what moves further than the mask reaches is forgotten.
    pub open spec fn moved(self, tick: RepliconTick) -> ConfirmHistory {
        let ticks = tick.distance(self.last_tick) as u32;
        let mask = if ticks < 64 {
            (self.mask << ticks) | 1
        } else {
            1
        };
        ConfirmHistory { mask, last_tick: tick }
    }

    /// This history with the tick this long before the last one confirmed too.
    pub open spec fn marked(self, ago: u32) -> ConfirmHistory {
        ConfirmHistory { mask: self.mask | (1u64 << ago), last_tick: self.last_tick }
    }

    /// The history with this tick as its only one.
    pub fn new(tick: RepliconTick) -> (history: ConfirmHistory)
        ensures
            history == ConfirmHistory::first(tick),
    {
        ConfirmHistory { mask: 1, last_tick: tick }
    }

    /// The last tick.
    pub fn last_tick(&self) -> (tick: RepliconTick)
        ensures
            tick == self.last_tick,
    {
        self.last_tick
    }

    /// Whether the tick counts as confirmed.
    pub fn contains(&self, tick: RepliconTick) -> (found: bool)
        ensures
            found == self.has(tick),
    {
        if tick.is_after(self.last_tick) {
            return false;
        }
        let ago = self.last_tick.since(tick);
        ago >= 64 || (self.mask >> ago) & 1 == 1
    }

    /// Makes this tick the last one.
    pub fn set_last_tick(&mut self, tick: RepliconTick)
        ensures
            *final(self) == old(self).moved(tick),
    {
        let ticks = tick.since(self.last_tick);
        self.mask = if ticks < 64 {
            (self.mask << ticks) | 1
        } else {
            1
        };
        self.last_tick = tick;
    }

    /// Confirms the tick this long before the last one.
    pub fn set(&mut self, ago: u32)
        requires
            ago < 64,
        ensures
            *final(self) == old(self).marked(ago),
    {
        self.mask = self.mask | (1u64 << ago);
    }

    /// A first history counts its own tick as confirmed.
    pub proof fn lemma_first_has(tick: RepliconTick)
        ensures
            ConfirmHistory::first(tick).has(tick),
    {
        assert((1u64 >> 0u32) & 1 == 1) by (bit_vector);
    }

    /// A tick counts as confirmed as soon as it is the last one.
    pub proof fn lemma_moved_has(self, tick: RepliconTick)
        ensures
            self.moved(tick).has(tick),
    {
        let mask = self.mask;
        let ticks = tick.distance(self.last_tick) as u32;
        assert((((mask << ticks) | 1) >> 0u32) & 1 == 1) by (bit_vector);
        assert((1u64 >> 0u32) & 1 == 1) by (bit_vector);
    }

    /// What counted as confirmed still does once a later tick is the last one.
    ///
    /// A tick half the range away from the new last one cannot be told from a later one.
    pub proof fn lemma_moved_keeps(self, tick: RepliconTick, other: RepliconTick)
        requires
            !tick.before(self.last_tick),
            self.has(other),
            !other.after(tick),
            self.last_tick.distance(other) + tick.distance(self.last_tick) <= u32::MAX,
        ensures
            self.moved(tick).has(other),
    {
        let mask = self.mask;
        let ticks = tick.distance(self.last_tick) as u32;
        let back = self.last_tick.distance(other) as u32;
        let ago = tick.distance(other) as u32;
        assert(ago == ticks + back);
        if ago < 64 {
            assert((((mask << ticks) | 1) >> ago) & 1 == 1) by (bit_vector)
                requires
                    ago < 64,
                    ago == ticks + back,
                    (mask >> back) & 1 == 1,
            ;
        }
    }

    /// A marked tick counts as confirmed, and whatever else did still does.
    pub proof fn lemma_marked_has(self, ago: u32, tick: RepliconTick)
        requires
            ago < 64,
            self.last_tick.distance(tick) == ago || self.has(tick),
        ensures
            self.marked(ago).has(tick),
    {
        let mask = self.mask;
        let other = self.last_tick.distance(tick) as u32;
        if other < 64 {
            assert(((mask | (1u64 << ago)) >> other) & 1 == 1) by (bit_vector)
                requires
                    ago < 64,
                    other < 64,
                    other == ago || (mask >> other) & 1 == 1,
            ;
        }
    }

    /// It makes no difference whether an earlier tick is confirmed before a later one is the last,
    /// or marked after that, as far as the mask reaches.
    pub proof fn lemma_moved_twice(self, earlier: RepliconTick, later: RepliconTick)
        requires
            earlier.after(self.last_tick),
            later.after(self.last_tick),
            later.after(earlier),
        ensures
            self.moved(earlier).moved(later) == if later.distance(earlier) < 64 {
                self.moved(later).marked(later.distance(earlier) as u32)
            } else {
                self.moved(later)
            },
    {
        let mask = self.mask;
        let first = earlier.distance(self.last_tick) as u32;
        let second = later.distance(earlier) as u32;
        let both = later.distance(self.last_tick) as u32;
        assert(both == first + second);
        if second < 64 {
            if both < 64 {
                let moved = mask << first;
                assert(((moved | 1) << second) | 1 == ((moved << second) | 1) | (1u64 << second))
                    by (bit_vector);
                assert((mask << first) << second == mask << both) by (bit_vector)
                    requires
                        both < 64,
                        both == first + second,
                ;
            } else if first < 64 {
                let moved = mask << first;
                assert((mask << first) << second == 0) by (bit_vector)
                    requires
                        first < 64,
                        second < 64,
                        first + second >= 64,
                ;
                assert(((moved | 1) << second) | 1 == 1u64 | (1u64 << second)) by (bit_vector)
                    requires
                        moved << second == 0,
                ;
            } else {
                assert((1u64 << second) | 1 == 1u64 | (1u64 << second)) by (bit_vector);
            }
        }
    }

    /// It makes no difference whether a tick is marked before a later one is the last or after, as
    /// far as the mask reaches.
    pub proof fn lemma_marked_and_moved(self, marked: RepliconTick, later: RepliconTick)
        requires
            !marked.after(self.last_tick),
            later.after(self.last_tick),
        ensures
            later.distance(marked) < 64 ==> self.last_tick.distance(marked) < 64,
            self.last_tick.distance(marked) < 64 ==> self.marked(
                self.last_tick.distance(marked) as u32,
            ).moved(later) == if later.distance(marked) < 64 {
                self.moved(later).marked(later.distance(marked) as u32)
            } else {
                self.moved(later)
            },
    {
        let mask = self.mask;
        let ago = self.last_tick.distance(marked) as u32;
        let ticks = later.distance(self.last_tick) as u32;
        let both = later.distance(marked) as u32;
        assert(both == ago + ticks);
        if ago < 64 && ticks < 64 {
            let mark = 1u64 << ago;
            assert((mask | mark) << ticks == (mask << ticks) | (mark << ticks)) by (bit_vector);
            if both < 64 {
                assert((1u64 << ago) << ticks == 1u64 << both) by (bit_vector)
                    requires
                        both < 64,
                        both == ago + ticks,
                ;
                let moved = mask << ticks;
                let moved_mark = mark << ticks;
                assert((moved | moved_mark) | 1 == (moved | 1) | moved_mark) by (bit_vector);
            } else {
                assert((1u64 << ago) << ticks == 0) by (bit_vector)
                    requires
                        ago < 64,
                        ticks < 64,
                        ago + ticks >= 64,
                ;
                let moved = mask << ticks;
                assert(moved | 0 == moved) by (bit_vector);
            }
        }
    }

    /// It makes no difference in which order two ticks are marked.
    pub proof fn lemma_marked_twice(self, one: u32, other: u32)
        ensures
            self.marked(one).marked(other) == self.marked(other).marked(one),
    {
        let mask = self.mask;
        assert((mask | (1u64 << one)) | (1u64 << other) == (mask | (1u64 << other)) | (1u64
            << one)) by (bit_vector);
    }

    /// Of the ticks that are known, those before a new last one count as confirmed if and only if
    /// they did before. With an earlier last tick nothing else is known to be confirmed.
    pub proof fn lemma_moved_confirms_nothing_else(self, tick: RepliconTick, other: RepliconTick)
        requires
            0 < tick.distance(other) < 64,
        ensures
            self.moved(tick).last_tick == tick,
            self.moved(tick).has(other) <==> !tick.before(self.last_tick) && self.has(other)
                && self.last_tick.distance(other) < 64,
    {
        let mask = self.mask;
        let ticks = tick.distance(self.last_tick) as u32;
        let ago = tick.distance(other) as u32;
        let back = self.last_tick.distance(other) as u32;
        if ticks < 64 {
            if ago < ticks {
                assert((((mask << ticks) | 1) >> ago) & 1 == 0) by (bit_vector)
                    requires
                        0 < ago < ticks < 64,
                ;
            } else {
                assert(ago == ticks + back);
                let moved = mask << ticks;
                assert(((moved | 1) >> ago) & 1 == (moved >> ago) & 1) by (bit_vector)
                    requires
                        0 < ago < 64,
                ;
                assert(((mask << ticks) >> ago) & 1 == (mask >> back) & 1) by (bit_vector)
                    requires
                        ago < 64,
                        ago == ticks + back,
                ;
            }
        } else {
            assert((1u64 >> ago) & 1 == 0) by (bit_vector)
                requires
                    0 < ago < 64,
            ;
        }
    }

    /// Marking a tick confirms that tick, and no other.
    pub proof fn lemma_marked_confirms_nothing_else(self, ago: u32, other: RepliconTick)
        requires
            ago < 64,
            self.last_tick.distance(other) != ago,
        ensures
            self.marked(ago).last_tick == self.last_tick,
            self.marked(ago).has(other) <==> self.has(other),
    {
        let mask = self.mask;
        let back = self.last_tick.distance(other) as u32;
        if back < 64 {
            assert(((mask | (1u64 << ago)) >> back) & 1 == (mask >> back) & 1) by (bit_vector)
                requires
                    ago < 64,
                    back < 64,
                    back != ago,
            ;
        }
    }

    /// Of the ticks that are known, a first history confirms its own, and no other.
    pub proof fn lemma_first_confirms_nothing_else(tick: RepliconTick, other: RepliconTick)
        requires
            0 < tick.distance(other) < 64,
        ensures
            ConfirmHistory::first(tick).last_tick == tick,
            !ConfirmHistory::first(tick).has(other),
    {
        let ago = tick.distance(other) as u32;
        assert((1u64 >> ago) & 1 == 0) by (bit_vector)
            requires
                0 < ago < 64,
        ;
    }

    /// Ticks that are later than the last one do not count as confirmed. Those too old to be known
    /// do, and the others do if their bit is set.
    pub proof fn lemma_has(self, tick: RepliconTick)
        ensures
            tick.after(self.last_tick) ==> !self.has(tick),
            !tick.after(self.last_tick) && self.last_tick.distance(tick) >= 64 ==> self.has(tick),
            self.last_tick.distance(tick) < 64 ==> (self.has(tick) <==> self.mask & (1u64
                << self.last_tick.distance(tick) as u32) != 0),
    {
        let mask = self.mask;
        let ago = self.last_tick.distance(tick) as u32;
        if ago < 64 {
            assert((mask >> ago) & 1 == 1 <==> mask & (1u64 << ago) != 0) by (bit_vector)
                requires
                    ago < 64,
            ;
        }
    }
}

} // verus!
