//! What the passing of a turn makes of the entities that last a number of
//! turns only.

use vstd::prelude::*;
use crate::entity::{without_id, Entity, Light, LightId, Occupant};
use crate::geometry::GridSize;
use crate::world::tables::light_removed;

verus! {

/// Whether the turns of `e` have run out and it leaves the world.
pub open spec fn expires(e: Entity) -> bool {
    e.remaining_turns == Some(0u32) && !e.player
}

/// `e` with one turn less to last, if it lasts a number of turns only.
pub open spec fn turn_passed(e: Entity) -> Entity {
    match e.remaining_turns {
        Some(n) => if n > 0 {
            Entity { remaining_turns: Some((n - 1) as u32), ..e }
        } else {
            e
        },
        None => e,
    }
}

/// The entities after one turn has passed.
pub open spec fn after_turn(entities: Seq<Entity>) -> Seq<Entity>
    decreases entities.len(),
{
    if entities.len() == 0 {
        Seq::empty()
    } else if expires(entities.last()) {
        after_turn(entities.drop_last())
    } else {
        after_turn(entities.drop_last()).push(turn_passed(entities.last()))
    }
}

/// The lights after one turn has passed for `entities`: those of the
/// entities that leave are gone.
pub open spec fn lights_after_turn(lights: Seq<(LightId, Light)>, entities: Seq<Entity>) -> Seq<
    (LightId, Light),
>
    decreases entities.len(),
{
    if entities.len() == 0 {
        lights
    } else {
        let rest = lights_after_turn(lights, entities.drop_last());
        if expires(entities.last()) {
            light_removed(rest, entities.last().light_index)
        } else {
            rest
        }
    }
}

/// What the cell at index `i` records after one turn has passed for
/// `entities`: the entities that leave are forgotten.
pub open spec fn occupants_after_turn(
    occupants: Seq<Occupant>,
    i: int,
    size: GridSize,
    entities: Seq<Entity>,
) -> Seq<Occupant>
    decreases entities.len(),
{
    if entities.len() == 0 {
        occupants
    } else {
        let rest = occupants_after_turn(occupants, i, size, entities.drop_last());
        let e = entities.last();
        if expires(e) && size.contains_spec(e.coord) && i == size.index_of(e.coord) {
            without_id(rest, e.id)
        } else {
            rest
        }
    }
}

} // verus!
