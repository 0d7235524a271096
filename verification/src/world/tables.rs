//! The tables of entities and lights: how an entry is found by its
//! identity, and what stays true of the others when one comes, changes or goes.

use vstd::prelude::*;
use crate::entity::{
    contains_id,
    entity_ids,
    find_entity_spec,
    find_light_spec,
    has_id,
    has_light,
    ids_increasing,
    index_of_id,
    index_of_light,
    lemma_ids_push,
    lemma_ids_remove,
    lemma_position,
    light_ids,
    light_ids_increasing,
    position,
    shifted,
    Entity,
    EntityId,
    ForegroundTile,
    Light,
    LightId,
    Occupant,
    PackedEntity,
};
use crate::geometry::Coordinate;

verus! {

/// Every entity that carries a light has that light in the table, at the
/// entity's own position.
pub open spec fn lights_follow(entities: Seq<Entity>, lights: Seq<(LightId, Light)>) -> bool {
    forall|i: int|
        0 <= i < entities.len() && (#[trigger] entities[i]).light_index.is_some() ==> {
            let light = find_light_spec(lights, entities[i].light_index.unwrap());
            light.is_some() && light.unwrap().coord == entities[i].coord
        }
}

/// No two entities carry the same light.
pub open spec fn lights_unshared(entities: Seq<Entity>) -> bool {
    forall|i: int, j: int|
        0 <= i < entities.len() && 0 <= j < entities.len() && i != j && (
        #[trigger] entities[i]).light_index.is_some() ==> entities[i].light_index != (
        #[trigger] entities[j]).light_index
}

/// In a table whose identities increase, an entity is found by its identity.
pub proof fn lemma_find_entity(entities: Seq<Entity>, i: int)
    requires
        ids_increasing(entities),
        0 <= i < entities.len(),
    ensures
        has_id(entities, entities[i].id),
        index_of_id(entities, entities[i].id) == i,
        find_entity_spec(entities, entities[i].id) == Some(entities[i]),
{
    lemma_position(entity_ids(entities), i);
}

/// An entity that is found stands in the table under its identity.
pub proof fn lemma_found_entity(entities: Seq<Entity>, id: EntityId)
    requires
        has_id(entities, id),
    ensures
        0 <= index_of_id(entities, id) < entities.len(),
        entities[index_of_id(entities, id)].id == id,
{
    let j = index_of_id(entities, id);
    assert(0 <= j < entity_ids(entities).len() && entity_ids(entities)[j] == id);
}

/// In a table whose identities increase, a light is found by its identity.
pub proof fn lemma_find_light(lights: Seq<(LightId, Light)>, i: int)
    requires
        light_ids_increasing(lights),
        0 <= i < lights.len(),
    ensures
        has_light(lights, lights[i].0),
        index_of_light(lights, lights[i].0) == i,
        find_light_spec(lights, lights[i].0) == Some(lights[i].1),
{
    lemma_position(light_ids(lights), i);
}

/// A light that is found stands in the table under its identity.
pub proof fn lemma_found_light(lights: Seq<(LightId, Light)>, id: LightId)
    requires
        has_light(lights, id),
    ensures
        0 <= index_of_light(lights, id) < lights.len(),
        lights[index_of_light(lights, id)].0 == id,
{
    let j = index_of_light(lights, id);
    assert(0 <= j < light_ids(lights).len() && light_ids(lights)[j] == id);
}

/// Putting an entity with a greater identity at the end of the table
/// leaves the others to be found as before.
pub proof fn lemma_entities_push(entities: Seq<Entity>, e: Entity)
    requires
        ids_increasing(entities),
        forall|i: int| 0 <= i < entities.len() ==> (#[trigger] entities[i]).id < e.id,
    ensures
        ids_increasing(entities.push(e)),
        forall|id: EntityId| #[trigger]
            find_entity_spec(entities.push(e), id) == if id == e.id {
                Some(e)
            } else {
                find_entity_spec(entities, id)
            },
{
    let ids = entity_ids(entities);
    let new = entities.push(e);
    assert(entity_ids(new) =~= ids.push(e.id));
    assert forall|i: int| 0 <= i < ids.len() implies ids[i] < e.id by {
        assert(entities[i].id < e.id);
    }
    lemma_ids_push(ids, e.id);
    assert forall|id: EntityId| #[trigger]
        find_entity_spec(new, id) == if id == e.id {
            Some(e)
        } else {
            find_entity_spec(entities, id)
        } by {
        if id != e.id {
            assert(contains_id(ids.push(e.id), id) == contains_id(ids, id));
            if contains_id(ids, id) {
                lemma_found_entity(entities, id);
                assert(position(ids.push(e.id), id) == position(ids, id));
            }
        }
    }
}

/// Replacing an entity by one of the same identity leaves the others to be
/// found as before.
pub proof fn lemma_entities_update(entities: Seq<Entity>, j: int, e: Entity)
    requires
        ids_increasing(entities),
        0 <= j < entities.len(),
        e.id == entities[j].id,
    ensures
        ids_increasing(entities.update(j, e)),
        forall|id: EntityId| #[trigger]
            find_entity_spec(entities.update(j, e), id) == if id == e.id {
                Some(e)
            } else {
                find_entity_spec(entities, id)
            },
{
    let ids = entity_ids(entities);
    let new = entities.update(j, e);
    assert(entity_ids(new) =~= ids);
    lemma_position(ids, j);
    assert forall|id: EntityId| #[trigger]
        find_entity_spec(new, id) == if id == e.id {
            Some(e)
        } else {
            find_entity_spec(entities, id)
        } by {
        if id != e.id && contains_id(ids, id) {
            lemma_found_entity(entities, id);
        }
    }
}

/// Taking an entity out of the table leaves the others to be found as before.
pub proof fn lemma_entities_remove(entities: Seq<Entity>, j: int)
    requires
        ids_increasing(entities),
        0 <= j < entities.len(),
    ensures
        ids_increasing(entities.remove(j)),
        forall|id: EntityId| #[trigger]
            find_entity_spec(entities.remove(j), id) == if id == entities[j].id {
                None
            } else {
                find_entity_spec(entities, id)
            },
{
    let ids = entity_ids(entities);
    let new = entities.remove(j);
    assert(entity_ids(new) =~= ids.remove(j));
    lemma_ids_remove(ids, j);
    assert forall|id: EntityId| #[trigger]
        find_entity_spec(new, id) == if id == entities[j].id {
            None
        } else {
            find_entity_spec(entities, id)
        } by {
        if id != entities[j].id {
            assert(contains_id(ids.remove(j), id) == contains_id(ids, id));
            if contains_id(ids, id) {
                lemma_found_entity(entities, id);
                assert(position(ids.remove(j), id) == shifted(position(ids, id), j));
            }
        }
    }
}

/// Putting a light with a greater identity at the end of the table leaves
/// the others to be found as before.
pub proof fn lemma_lights_push(lights: Seq<(LightId, Light)>, id: LightId, light: Light)
    requires
        light_ids_increasing(lights),
        forall|i: int| 0 <= i < lights.len() ==> (#[trigger] lights[i]).0 < id,
    ensures
        light_ids_increasing(lights.push((id, light))),
        forall|other: LightId| #[trigger]
            find_light_spec(lights.push((id, light)), other) == if other == id {
                Some(light)
            } else {
                find_light_spec(lights, other)
            },
{
    let ids = light_ids(lights);
    let new = lights.push((id, light));
    assert(light_ids(new) =~= ids.push(id));
    assert forall|i: int| 0 <= i < ids.len() implies ids[i] < id by {
        assert(lights[i].0 < id);
    }
    lemma_ids_push(ids, id);
    assert forall|other: LightId| #[trigger]
        find_light_spec(new, other) == if other == id {
            Some(light)
        } else {
            find_light_spec(lights, other)
        } by {
        if other != id {
            assert(contains_id(ids.push(id), other) == contains_id(ids, other));
            if contains_id(ids, other) {
                lemma_found_light(lights, other);
                assert(position(ids.push(id), other) == position(ids, other));
            }
        }
    }
}

/// Replacing a light under its identity leaves the others to be found as before.
pub proof fn lemma_lights_update(lights: Seq<(LightId, Light)>, j: int, light: Light)
    requires
        light_ids_increasing(lights),
        0 <= j < lights.len(),
    ensures
        light_ids_increasing(lights.update(j, (lights[j].0, light))),
        forall|other: LightId| #[trigger]
            find_light_spec(lights.update(j, (lights[j].0, light)), other) == if other
                == lights[j].0 {
                Some(light)
            } else {
                find_light_spec(lights, other)
            },
{
    let ids = light_ids(lights);
    let new = lights.update(j, (lights[j].0, light));
    assert(light_ids(new) =~= ids);
    lemma_position(ids, j);
    assert forall|other: LightId| #[trigger]
        find_light_spec(new, other) == if other == lights[j].0 {
            Some(light)
        } else {
            find_light_spec(lights, other)
        } by {
        if other != lights[j].0 && contains_id(ids, other) {
            lemma_found_light(lights, other);
        }
    }
}

/// Taking a light out of the table leaves the others to be found as before.
pub proof fn lemma_lights_remove(lights: Seq<(LightId, Light)>, j: int)
    requires
        light_ids_increasing(lights),
        0 <= j < lights.len(),
    ensures
        light_ids_increasing(lights.remove(j)),
        forall|other: LightId| #[trigger]
            find_light_spec(lights.remove(j), other) == if other == lights[j].0 {
                None
            } else {
                find_light_spec(lights, other)
            },
{
    let ids = light_ids(lights);
    let new = lights.remove(j);
    assert(light_ids(new) =~= ids.remove(j));
    lemma_ids_remove(ids, j);
    assert forall|other: LightId| #[trigger]
        find_light_spec(new, other) == if other == lights[j].0 {
            None
        } else {
            find_light_spec(lights, other)
        } by {
        if other != lights[j].0 {
            assert(contains_id(ids.remove(j), other) == contains_id(ids, other));
            if contains_id(ids, other) {
                lemma_found_light(lights, other);
                assert(position(ids.remove(j), other) == shifted(position(ids, other), j));
            }
        }
    }
}

/// The entity that the world makes of `packed` at `coord`.
pub open spec fn entity_made(
    id: EntityId,
    coord: Coordinate,
    packed: PackedEntity,
    light_index: Option<LightId>,
) -> Entity {
    Entity {
        id,
        coord,
        foreground_tile: packed.foreground_tile,
        light_index,
        npc: packed.npc,
        player: packed.player,
        interactive: packed.interactive,
        solid: packed.solid,
        taking_damage_in_direction: None,
        hit_points: packed.hit_points,
        heal_countdown: None,
        remaining_turns: packed.remaining_turns,
    }
}

/// The lights once the light `light_index`, if there is one, has gone to `coord`.
pub open spec fn light_moved(
    lights: Seq<(LightId, Light)>,
    light_index: Option<LightId>,
    coord: Coordinate,
) -> Seq<(LightId, Light)> {
    match light_index {
        Some(l) => if has_light(lights, l) {
            let j = index_of_light(lights, l);
            lights.update(j, (l, Light { coord, ..lights[j].1 }))
        } else {
            lights
        },
        None => lights,
    }
}

/// The lights without the light `light_index`, if there is one.
pub open spec fn light_removed(lights: Seq<(LightId, Light)>, light_index: Option<LightId>) -> Seq<
    (LightId, Light),
> {
    match light_index {
        Some(l) => if has_light(lights, l) {
            lights.remove(index_of_light(lights, l))
        } else {
            lights
        },
        None => lights,
    }
}

/// Whether every player of `before` is still in `after`, still a player,
/// and still has hit points if it had.
pub open spec fn players_kept(before: Seq<Entity>, after: Seq<Entity>) -> bool {
    forall|id: EntityId|
        {
            let b = #[trigger] find_entity_spec(before, id);
            b.is_some() && b.unwrap().player ==> {
                let a = find_entity_spec(after, id);
                &&& a.is_some()
                &&& a.unwrap().player
                &&& b.unwrap().hit_points.is_some() ==> a.unwrap().hit_points.is_some()
            }
        }
}

/// Players are kept over two changes that each keep them.
pub proof fn lemma_players_kept_twice(first: Seq<Entity>, second: Seq<Entity>, third: Seq<Entity>)
    requires
        players_kept(first, second),
        players_kept(second, third),
    ensures
        players_kept(first, third),
{
    assert forall|id: EntityId|
        {
            let b = #[trigger] find_entity_spec(first, id);
            b.is_some() && b.unwrap().player ==> {
                let a = find_entity_spec(third, id);
                &&& a.is_some()
                &&& a.unwrap().player
                &&& b.unwrap().hit_points.is_some() ==> a.unwrap().hit_points.is_some()
            }
        } by {
        let m = find_entity_spec(second, id);
    }
}

/// The identities of the autonomous actors among `entities`, in their order.
pub open spec fn npc_ids_of(entities: Seq<Entity>) -> Seq<EntityId>
    decreases entities.len(),
{
    if entities.len() == 0 {
        Seq::empty()
    } else if entities.last().npc {
        npc_ids_of(entities.drop_last()).push(entities.last().id)
    } else {
        npc_ids_of(entities.drop_last())
    }
}

/// The entities of the table that `occupants` names, in the order of `occupants`.
pub open spec fn entities_named(occupants: Seq<Occupant>, entities: Seq<Entity>) -> Seq<Entity>
    decreases occupants.len(),
{
    if occupants.len() == 0 {
        Seq::empty()
    } else {
        let rest = entities_named(occupants.drop_last(), entities);
        match find_entity_spec(entities, occupants.last().id) {
            Some(entity) => rest.push(entity),
            None => rest,
        }
    }
}

/// What those of `entities` that show as anything show as, in their order.
pub open spec fn tiles_shown(entities: Seq<Entity>) -> Seq<ForegroundTile>
    decreases entities.len(),
{
    if entities.len() == 0 {
        Seq::empty()
    } else {
        let rest = tiles_shown(entities.drop_last());
        match entities.last().foreground_tile {
            Some(tile) => rest.push(tile),
            None => rest,
        }
    }
}

} // verus!
