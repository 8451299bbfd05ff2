//! Data about the components of an entity is applied to its last byte.

use vstd::prelude::*;

use crate::entity::Entity;
use crate::laws::Reply;
use crate::message::FnsId;
use crate::receiving::{Action, Block, BlockKind, Cursor, Phase, Receiving};
use crate::wire::{lemma_usize_round_trip, varint_bytes};

verus! {

/// What a sender writes for components that were removed.
pub open spec fn removal_bytes(numbers: Seq<usize>) -> Seq<u8>
    decreases numbers.len(),
{
    if numbers.len() == 0 {
        Seq::empty()
    } else {
        varint_bytes(numbers[0] as nat) + removal_bytes(numbers.skip(1))
    }
}

/// What a sender writes for components with these numbers that are written as these bytes.
pub open spec fn component_bytes(components: Seq<(usize, Seq<u8>)>) -> Seq<u8>
    decreases components.len(),
{
    if components.len() == 0 {
        Seq::empty()
    } else {
        varint_bytes(components[0].0 as nat) + components[0].1 + component_bytes(
            components.skip(1),
        )
    }
}

/// The caller did this many times what it was asked to.
pub open spec fn done(count: nat) -> Seq<Reply> {
    Seq::new(count, |i: int| Reply::Proceed)
}

proof fn lemma_varint_not_empty(value: nat)
    ensures
        varint_bytes(value).len() > 0,
{
}

proof fn lemma_removing(
    s: Receiving,
    cursor: Cursor<Seq<u8>>,
    entity: Entity,
    numbers: Seq<usize>,
    count: nat,
)
    requires
        s.phase == (Phase::NextComponent {
            cursor,
            block: Block {
                entity,
                kind: BlockKind::Remove,
                len: 0,
                data: removal_bytes(numbers),
            },
        }),
        numbers.len() <= usize::MAX,
        count <= numbers.len(),
    ensures
        s.accepts_all(done(count)),
        s.run(done(count)) == (Receiving {
            phase: Phase::NextComponent {
                cursor,
                block: Block {
                    entity,
                    kind: BlockKind::Remove,
                    len: count as usize,
                    data: removal_bytes(numbers.skip(count as int)),
                },
            },
            ..s
        }),
    decreases count,
{
    if count == 0 {
        assert(numbers.skip(0) =~= numbers);
    } else {
        let before = (count - 1) as nat;
        lemma_removing(s, cursor, entity, numbers, before);
        assert(done(count).drop_last() =~= done(before));
        let left = numbers.skip(before as int);
        assert(left.skip(1) =~= numbers.skip(count as int));
        lemma_usize_round_trip(left[0], removal_bytes(left.skip(1)));
        lemma_varint_not_empty(left[0] as nat);
    }
}

/// The components that are removed from an entity are exactly those that the sender wrote, in their
/// order, whoever the sender is. Behind the last one what was collected is applied, as many
/// components are counted as there were, and the array goes on.
pub proof fn lemma_every_component_is_removed(
    s: Receiving,
    cursor: Cursor<Seq<u8>>,
    entity: Entity,
    numbers: Seq<usize>,
)
    requires
        s.phase == (Phase::NextComponent {
            cursor,
            block: Block {
                entity,
                kind: BlockKind::Remove,
                len: 0,
                data: removal_bytes(numbers),
            },
        }),
        numbers.len() <= usize::MAX,
    ensures
        s.accepts_all(done(numbers.len())),
        forall|i: int|
            0 <= i < numbers.len() ==> s.run(done(i as nat)).proceed().1 == (Action::<
                Seq<u8>,
            >::Remove { entity, fns_id: FnsId(#[trigger] numbers[i]), tick: cursor.tick }),
        s.run(done(numbers.len())).proceed().1 == Action::<Seq<u8>>::Flush(entity),
        ({
            let end = s.run(done(numbers.len())).proceed().0;
            &&& end == (Receiving { stats: end.stats, phase: Phase::NextItem(cursor), ..s })
            &&& s.stats matches Some(stats) ==> end.stats matches Some(after)
                && after.components_changed == stats.components_changed.wrapping_add(
                numbers.len() as usize,
            )
        }),
{
    let all = numbers.len();
    lemma_removing(s, cursor, entity, numbers, all);
    assert(numbers.skip(all as int) =~= Seq::empty());
    assert forall|i: int| 0 <= i < numbers.len() implies s.run(done(i as nat)).proceed().1 == (
    Action::<Seq<u8>>::Remove {
        entity,
        fns_id: FnsId(#[trigger] numbers[i]),
        tick: cursor.tick,
    }) by {
        lemma_removing(s, cursor, entity, numbers, i as nat);
        let left = numbers.skip(i);
        lemma_usize_round_trip(left[0], removal_bytes(left.skip(1)));
        lemma_varint_not_empty(left[0] as nat);
    }
}

/// The caller wrote this many of the components, each of which took its own bytes.
pub open spec fn wrote(components: Seq<(usize, Seq<u8>)>, count: nat) -> Seq<Reply>
    decreases count,
{
    if count == 0 {
        Seq::empty()
    } else {
        wrote(components, (count - 1) as nat).push(Reply::Proceed).push(
            Reply::Written(Some(component_bytes(components.skip(count as int)))),
        )
    }
}

proof fn lemma_next_component(components: Seq<(usize, Seq<u8>)>)
    requires
        components.len() > 0,
    ensures
        component_bytes(components).len() > 0,
        crate::wire::read_usize(component_bytes(components)) == Ok::<
            (usize, Seq<u8>),
            crate::wire::WireError,
        >((components[0].0, components[0].1 + component_bytes(components.skip(1)))),
{
    let (number, bytes) = components[0];
    let rest = component_bytes(components.skip(1));
    lemma_usize_round_trip(number, bytes + rest);
    lemma_varint_not_empty(number as nat);
    assert(component_bytes(components) =~= varint_bytes(number as nat) + (bytes + rest));
}

proof fn lemma_writing(
    s: Receiving,
    cursor: Cursor<Seq<u8>>,
    entity: Entity,
    kind: BlockKind,
    components: Seq<(usize, Seq<u8>)>,
    count: nat,
)
    requires
        s.phase == (Phase::NextComponent {
            cursor,
            block: Block { entity, kind, len: 0, data: component_bytes(components) },
        }),
        !(kind is Remove),
        components.len() <= usize::MAX,
        count <= components.len(),
    ensures
        s.accepts_all(wrote(components, count)),
        s.run(wrote(components, count)) == (Receiving {
            phase: Phase::NextComponent {
                cursor,
                block: Block {
                    entity,
                    kind,
                    len: count as usize,
                    data: component_bytes(components.skip(count as int)),
                },
            },
            ..s
        }),
    decreases count,
{
    if count == 0 {
        assert(components.skip(0) =~= components);
    } else {
        let before = (count - 1) as nat;
        lemma_writing(s, cursor, entity, kind, components, before);
        let left = components.skip(before as int);
        assert(left.skip(1) =~= components.skip(count as int));
        lemma_next_component(left);
        let asked = wrote(components, before).push(Reply::Proceed);
        let replies = wrote(components, count);
        assert(asked.drop_last() =~= wrote(components, before));
        assert(replies.drop_last() =~= asked);
        assert(s.run(asked) == s.run(wrote(components, before)).step(Reply::Proceed).0);
        assert(s.accepts_all(asked));
    }
}

/// The components that are written to an entity are exactly those that the sender wrote, in their
/// order, whoever the sender is. Each is handed over with its own bytes in front, as outdated if the
/// whole data is. Behind the last one what was collected is applied, as many components are counted
/// as there were, and the array goes on.
pub proof fn lemma_every_component_is_written(
    s: Receiving,
    cursor: Cursor<Seq<u8>>,
    entity: Entity,
    kind: BlockKind,
    components: Seq<(usize, Seq<u8>)>,
)
    requires
        s.phase == (Phase::NextComponent {
            cursor,
            block: Block { entity, kind, len: 0, data: component_bytes(components) },
        }),
        !(kind is Remove),
        components.len() <= usize::MAX,
    ensures
        s.accepts_all(wrote(components, components.len())),
        forall|i: int|
            0 <= i < components.len() ==> s.run(wrote(components, i as nat)).proceed().1 == (
            Action::<Seq<u8>>::Write {
                entity,
                fns_id: FnsId((#[trigger] components[i]).0),
                tick: cursor.tick,
                outdated: kind is Outdated,
                data: components[i].1 + component_bytes(components.skip(i + 1)),
            }),
        s.run(wrote(components, components.len())).proceed().1 == Action::<Seq<u8>>::Flush(entity),
        ({
            let end = s.run(wrote(components, components.len())).proceed().0;
            &&& end == (Receiving { stats: end.stats, phase: Phase::NextItem(cursor), ..s })
            &&& s.stats matches Some(stats) ==> end.stats matches Some(after)
                && after.components_changed == stats.components_changed.wrapping_add(
                components.len() as usize,
            )
        }),
{
    let all = components.len();
    lemma_writing(s, cursor, entity, kind, components, all);
    assert(components.skip(all as int) =~= Seq::empty());
    assert forall|i: int| 0 <= i < components.len() implies s.run(
        wrote(components, i as nat),
    ).proceed().1 == (Action::<Seq<u8>>::Write {
        entity,
        fns_id: FnsId((#[trigger] components[i]).0),
        tick: cursor.tick,
        outdated: kind is Outdated,
        data: components[i].1 + component_bytes(components.skip(i + 1)),
    }) by {
        lemma_writing(s, cursor, entity, kind, components, i as nat);
        let left = components.skip(i);
        assert(left.skip(1) =~= components.skip(i + 1));
        lemma_next_component(left);
    }
}

} // verus!
