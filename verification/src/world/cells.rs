//! What the cells record of the entities that stand on them, and what
//! stays true of the records when an entity comes, changes or goes.

use vstd::prelude::*;
use crate::entity::{
    find_entity_spec,
    occupant_is,
    occupant_of,
    shifted,
    without_id,
    Entity,
    EntityId,
    Occupant,
    OccupantKind,
    WorldCell,
};
use crate::geometry::{Coordinate, GridSize};

verus! {

/// Whether `occupants` records the entity `id`.
pub open spec fn records(occupants: Seq<Occupant>, id: EntityId) -> bool {
    exists|k: int| 0 <= k < occupants.len() && (#[trigger] occupants[k]).id == id
}

/// Every occupant that a cell records is an entity of the table that
/// stands on that cell, recorded with the entity's own kind.
pub open spec fn occupants_are_entities(
    cells: Seq<WorldCell>,
    size: GridSize,
    entities: Seq<Entity>,
) -> bool {
    forall|i: int, k: int|
        0 <= i < cells.len() && 0 <= k < cells[i].occupants_spec().len() ==> {
            let o = #[trigger] cells[i].occupants_spec()[k];
            let e = find_entity_spec(entities, o.id);
            &&& e.is_some()
            &&& e.unwrap().coord == size.coord_at(i)
            &&& occupant_of(e.unwrap()) == o
        }
}

/// No cell records an entity twice.
pub open spec fn occupants_distinct(cells: Seq<WorldCell>) -> bool {
    forall|i: int, k: int, l: int|
        0 <= i < cells.len() && 0 <= k < l < cells[i].occupants_spec().len() ==> (
        #[trigger] cells[i].occupants_spec()[k]).id != (#[trigger] cells[i].occupants_spec()[l]).id
}

/// Every entity that stands inside the grid is recorded by the cell it
/// stands on.
pub open spec fn entities_are_occupants(
    cells: Seq<WorldCell>,
    size: GridSize,
    entities: Seq<Entity>,
) -> bool {
    forall|id: EntityId|
        {
            let e = #[trigger] find_entity_spec(entities, id);
            e.is_some() && size.contains_spec(e.unwrap().coord) ==> records(
                cells[size.index_of(e.unwrap().coord)].occupants_spec(),
                id,
            )
        }
}

/// The cells record exactly the entities that stand on them: what the
/// world's invariant says of the cells and the table of entities.
pub open spec fn cells_match(cells: Seq<WorldCell>, size: GridSize, entities: Seq<Entity>) -> bool {
    &&& occupants_are_entities(cells, size, entities)
    &&& occupants_distinct(cells)
    &&& entities_are_occupants(cells, size, entities)
}

/// Whether the cells of `after` are as many as those of `before` and have
/// their terrain.
pub open spec fn terrain_kept(before: Seq<WorldCell>, after: Seq<WorldCell>) -> bool {
    &&& after.len() == before.len()
    &&& forall|i: int|
        0 <= i < before.len() ==> (#[trigger] after[i]).background_spec()
            == before[i].background_spec()
}

/// What the cell at index `i` records once the entity `e` has gone to `to`:
/// the cell it stood on has forgotten it and the cell at `to` records it last.
pub open spec fn occupants_moved(
    occupants: Seq<Occupant>,
    i: int,
    size: GridSize,
    e: Entity,
    to: Coordinate,
) -> Seq<Occupant> {
    let left = if size.contains_spec(e.coord) && i == size.index_of(e.coord) {
        without_id(occupants, e.id)
    } else {
        occupants
    };
    if size.contains_spec(to) && i == size.index_of(to) {
        left.push(occupant_of(e))
    } else {
        left
    }
}

/// The cells still match once a new entity is recorded by the cell it stands on.
pub proof fn lemma_cells_add(
    cells: Seq<WorldCell>,
    new_cells: Seq<WorldCell>,
    size: GridSize,
    entities: Seq<Entity>,
    new_entities: Seq<Entity>,
    e: Entity,
)
    requires
        size.valid(),
        cells.len() == size.area(),
        new_cells.len() == cells.len(),
        cells_match(cells, size, entities),
        find_entity_spec(entities, e.id).is_none(),
        forall|id: EntityId| #[trigger]
            find_entity_spec(new_entities, id) == if id == e.id {
                Some(e)
            } else {
                find_entity_spec(entities, id)
            },
        forall|i: int|
            0 <= i < cells.len() ==> #[trigger] new_cells[i].occupants_spec()
                == if size.contains_spec(e.coord) && i == size.index_of(e.coord) {
                cells[i].occupants_spec().push(occupant_of(e))
            } else {
                cells[i].occupants_spec()
            },
    ensures
        cells_match(new_cells, size, new_entities),
{
    if size.contains_spec(e.coord) {
        size.lemma_index_in_range(e.coord);
    }
    assert forall|i: int, k: int|
        0 <= i < new_cells.len() && 0 <= k < new_cells[i].occupants_spec().len() implies {
        let o = #[trigger] new_cells[i].occupants_spec()[k];
        let f = find_entity_spec(new_entities, o.id);
        &&& f.is_some()
        &&& f.unwrap().coord == size.coord_at(i)
        &&& occupant_of(f.unwrap()) == o
    } by {
        let o = new_cells[i].occupants_spec()[k];
        if size.contains_spec(e.coord) && i == size.index_of(e.coord) && k
            == cells[i].occupants_spec().len() {
            assert(find_entity_spec(new_entities, e.id) == Some(e));
        } else {
            assert(o == cells[i].occupants_spec()[k]);
            assert(find_entity_spec(new_entities, o.id) == find_entity_spec(entities, o.id));
        }
    }
    assert forall|i: int, k: int, l: int|
        0 <= i < new_cells.len() && 0 <= k < l < new_cells[i].occupants_spec().len() implies (
    #[trigger] new_cells[i].occupants_spec()[k]).id != (
    #[trigger] new_cells[i].occupants_spec()[l]).id by {
        assert(new_cells[i].occupants_spec()[k] == cells[i].occupants_spec()[k]);
        if l < cells[i].occupants_spec().len() {
            assert(new_cells[i].occupants_spec()[l] == cells[i].occupants_spec()[l]);
        }
    }
    assert forall|id: EntityId|
        {
            let f = #[trigger] find_entity_spec(new_entities, id);
            f.is_some() && size.contains_spec(f.unwrap().coord) ==> records(
                new_cells[size.index_of(f.unwrap().coord)].occupants_spec(),
                id,
            )
        } by {
        let f = find_entity_spec(new_entities, id);
        if f.is_some() && size.contains_spec(f.unwrap().coord) {
            let i = size.index_of(f.unwrap().coord);
            size.lemma_index_in_range(f.unwrap().coord);
            if id == e.id {
                let k = cells[i].occupants_spec().len() as int;
                assert(new_cells[i].occupants_spec()[k].id == id);
            } else {
                assert(find_entity_spec(entities, id) == f);
                let k = choose|k: int|
                    0 <= k < cells[i].occupants_spec().len() && (
                    #[trigger] cells[i].occupants_spec()[k]).id == id;
                assert(new_cells[i].occupants_spec()[k].id == id);
            }
        }
    }
}

/// The cells still match once an entity and the record of it are taken out.
pub proof fn lemma_cells_remove(
    cells: Seq<WorldCell>,
    new_cells: Seq<WorldCell>,
    size: GridSize,
    entities: Seq<Entity>,
    new_entities: Seq<Entity>,
    e: Entity,
    k: int,
)
    requires
        size.valid(),
        cells.len() == size.area(),
        new_cells.len() == cells.len(),
        cells_match(cells, size, entities),
        find_entity_spec(entities, e.id) == Some(e),
        forall|id: EntityId| #[trigger]
            find_entity_spec(new_entities, id) == if id == e.id {
                None
            } else {
                find_entity_spec(entities, id)
            },
        size.contains_spec(e.coord) ==> 0 <= k < cells[size.index_of(
            e.coord,
        )].occupants_spec().len() && cells[size.index_of(e.coord)].occupants_spec()[k].id == e.id,
        forall|i: int|
            0 <= i < cells.len() ==> #[trigger] new_cells[i].occupants_spec()
                == if size.contains_spec(e.coord) && i == size.index_of(e.coord) {
                cells[i].occupants_spec().remove(k)
            } else {
                cells[i].occupants_spec()
            },
    ensures
        cells_match(new_cells, size, new_entities),
{
    let at = size.index_of(e.coord);
    if size.contains_spec(e.coord) {
        size.lemma_index_in_range(e.coord);
    }
    assert forall|i: int, l: int|
        0 <= i < new_cells.len() && 0 <= l < new_cells[i].occupants_spec().len() implies {
        let o = #[trigger] new_cells[i].occupants_spec()[l];
        let f = find_entity_spec(new_entities, o.id);
        &&& f.is_some()
        &&& f.unwrap().coord == size.coord_at(i)
        &&& occupant_of(f.unwrap()) == o
    } by {
        let o = new_cells[i].occupants_spec()[l];
        if size.contains_spec(e.coord) && i == at {
            let m = if l < k {
                l
            } else {
                l + 1
            };
            assert(o == cells[i].occupants_spec()[m]);
            assert(cells[i].occupants_spec()[k].id == e.id);
            if m < k {
                assert(cells[i].occupants_spec()[m].id != cells[i].occupants_spec()[k].id);
            } else {
                assert(cells[i].occupants_spec()[k].id != cells[i].occupants_spec()[m].id);
            }
        } else {
            assert(o == cells[i].occupants_spec()[l]);
            let f = find_entity_spec(entities, o.id);
            if o.id == e.id {
                assert(f == Some(e));
                size.lemma_coord_at_in_range(i);
            }
        }
        assert(find_entity_spec(new_entities, o.id) == find_entity_spec(entities, o.id));
    }
    assert forall|i: int, l: int, m: int|
        0 <= i < new_cells.len() && 0 <= l < m < new_cells[i].occupants_spec().len() implies (
    #[trigger] new_cells[i].occupants_spec()[l]).id != (
    #[trigger] new_cells[i].occupants_spec()[m]).id by {
        if size.contains_spec(e.coord) && i == at {
            let l0 = if l < k {
                l
            } else {
                l + 1
            };
            let m0 = if m < k {
                m
            } else {
                m + 1
            };
            assert(new_cells[i].occupants_spec()[l] == cells[i].occupants_spec()[l0]);
            assert(new_cells[i].occupants_spec()[m] == cells[i].occupants_spec()[m0]);
        } else {
            assert(new_cells[i].occupants_spec()[l] == cells[i].occupants_spec()[l]);
            assert(new_cells[i].occupants_spec()[m] == cells[i].occupants_spec()[m]);
        }
    }
    assert forall|id: EntityId|
        {
            let f = #[trigger] find_entity_spec(new_entities, id);
            f.is_some() && size.contains_spec(f.unwrap().coord) ==> records(
                new_cells[size.index_of(f.unwrap().coord)].occupants_spec(),
                id,
            )
        } by {
        let f = find_entity_spec(new_entities, id);
        if f.is_some() && size.contains_spec(f.unwrap().coord) {
            let i = size.index_of(f.unwrap().coord);
            size.lemma_index_in_range(f.unwrap().coord);
            assert(find_entity_spec(entities, id) == f);
            let l = choose|l: int|
                0 <= l < cells[i].occupants_spec().len() && (
                #[trigger] cells[i].occupants_spec()[l]).id == id;
            if size.contains_spec(e.coord) && i == at {
                let l1 = shifted(l, k);
                assert(new_cells[i].occupants_spec()[l1] == cells[i].occupants_spec()[l]);
                assert(new_cells[i].occupants_spec()[l1].id == id);
            } else {
                assert(new_cells[i].occupants_spec()[l].id == id);
            }
        }
    }
}

/// The cells still match once an entity changes in what no cell records:
/// anything but its position and its kind.
pub proof fn lemma_cells_retouch(
    cells: Seq<WorldCell>,
    new_cells: Seq<WorldCell>,
    size: GridSize,
    entities: Seq<Entity>,
    new_entities: Seq<Entity>,
    was: Entity,
    e: Entity,
)
    requires
        size.valid(),
        cells.len() == size.area(),
        new_cells.len() == cells.len(),
        cells_match(cells, size, entities),
        find_entity_spec(entities, e.id) == Some(was),
        e.coord == was.coord,
        occupant_of(e) == occupant_of(was),
        forall|id: EntityId| #[trigger]
            find_entity_spec(new_entities, id) == if id == e.id {
                Some(e)
            } else {
                find_entity_spec(entities, id)
            },
        forall|i: int|
            0 <= i < cells.len() ==> #[trigger] new_cells[i].occupants_spec()
                == cells[i].occupants_spec(),
    ensures
        cells_match(new_cells, size, new_entities),
{
    assert forall|i: int, k: int|
        0 <= i < new_cells.len() && 0 <= k < new_cells[i].occupants_spec().len() implies {
        let o = #[trigger] new_cells[i].occupants_spec()[k];
        let f = find_entity_spec(new_entities, o.id);
        &&& f.is_some()
        &&& f.unwrap().coord == size.coord_at(i)
        &&& occupant_of(f.unwrap()) == o
    } by {
        let o = new_cells[i].occupants_spec()[k];
        assert(o == cells[i].occupants_spec()[k]);
        let f = find_entity_spec(entities, o.id);
        assert(f.is_some());
    }
    assert forall|i: int, k: int, l: int|
        0 <= i < new_cells.len() && 0 <= k < l < new_cells[i].occupants_spec().len() implies (
    #[trigger] new_cells[i].occupants_spec()[k]).id != (
    #[trigger] new_cells[i].occupants_spec()[l]).id by {
        assert(new_cells[i].occupants_spec()[k] == cells[i].occupants_spec()[k]);
        assert(new_cells[i].occupants_spec()[l] == cells[i].occupants_spec()[l]);
    }
    assert forall|id: EntityId|
        {
            let f = #[trigger] find_entity_spec(new_entities, id);
            f.is_some() && size.contains_spec(f.unwrap().coord) ==> records(
                new_cells[size.index_of(f.unwrap().coord)].occupants_spec(),
                id,
            )
        } by {
        let f = find_entity_spec(new_entities, id);
        if f.is_some() && size.contains_spec(f.unwrap().coord) {
            let g = find_entity_spec(entities, id);
            assert(g.is_some() && g.unwrap().coord == f.unwrap().coord);
            let i = size.index_of(f.unwrap().coord);
            size.lemma_index_in_range(f.unwrap().coord);
            let k = choose|k: int|
                0 <= k < cells[i].occupants_spec().len() && (
                #[trigger] cells[i].occupants_spec()[k]).id == id;
            assert(new_cells[i].occupants_spec()[k].id == id);
        }
    }
}

/// The cells still match where only their terrain has changed.
pub proof fn lemma_cells_same_occupants(
    cells: Seq<WorldCell>,
    new_cells: Seq<WorldCell>,
    size: GridSize,
    entities: Seq<Entity>,
)
    requires
        size.valid(),
        cells.len() == size.area(),
        new_cells.len() == cells.len(),
        cells_match(cells, size, entities),
        forall|i: int|
            0 <= i < cells.len() ==> (#[trigger] new_cells[i]).occupants_spec()
                == cells[i].occupants_spec(),
    ensures
        cells_match(new_cells, size, entities),
{
    assert forall|i: int, k: int|
        0 <= i < new_cells.len() && 0 <= k < new_cells[i].occupants_spec().len() implies {
        let o = #[trigger] new_cells[i].occupants_spec()[k];
        let f = find_entity_spec(entities, o.id);
        &&& f.is_some()
        &&& f.unwrap().coord == size.coord_at(i)
        &&& occupant_of(f.unwrap()) == o
    } by {
        assert(new_cells[i].occupants_spec()[k] == cells[i].occupants_spec()[k]);
    }
    assert forall|i: int, k: int, l: int|
        0 <= i < new_cells.len() && 0 <= k < l < new_cells[i].occupants_spec().len() implies (
    #[trigger] new_cells[i].occupants_spec()[k]).id != (
    #[trigger] new_cells[i].occupants_spec()[l]).id by {
        assert(new_cells[i].occupants_spec()[k] == cells[i].occupants_spec()[k]);
        assert(new_cells[i].occupants_spec()[l] == cells[i].occupants_spec()[l]);
    }
    assert forall|id: EntityId|
        {
            let f = #[trigger] find_entity_spec(entities, id);
            f.is_some() && size.contains_spec(f.unwrap().coord) ==> records(
                new_cells[size.index_of(f.unwrap().coord)].occupants_spec(),
                id,
            )
        } by {
        let f = find_entity_spec(entities, id);
        if f.is_some() && size.contains_spec(f.unwrap().coord) {
            let i = size.index_of(f.unwrap().coord);
            size.lemma_index_in_range(f.unwrap().coord);
            let k = choose|k: int|
                0 <= k < cells[i].occupants_spec().len() && (
                #[trigger] cells[i].occupants_spec()[k]).id == id;
            assert(new_cells[i].occupants_spec()[k].id == id);
        }
    }
}

/// A cell holds a character exactly where it holds a player or an
/// autonomous actor.
pub proof fn lemma_character(occupants: Seq<Occupant>)
    ensures
        (exists|k: int|
            0 <= k < occupants.len() && crate::entity::occupant_is(
                #[trigger] occupants[k],
                OccupantKind::Character,
            )) == ((exists|k: int|
            0 <= k < occupants.len() && crate::entity::occupant_is(
                #[trigger] occupants[k],
                OccupantKind::Player,
            )) || (exists|k: int|
            0 <= k < occupants.len() && crate::entity::occupant_is(
                #[trigger] occupants[k],
                OccupantKind::Npc,
            ))),
{
}

} // verus!
