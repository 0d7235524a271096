//! The world: a grid of cells, the table of the entities that stand on
//! them and the table of the lights that some entities carry.

use vstd::prelude::*;
use crate::action::{ApplyAction, CancelAction};
use crate::colour::Rgb24;
use crate::entity::{
    background_opacity,
    contains_id,
    entity_ids,
    find_entity_spec,
    find_light_spec,
    first_index_of,
    has_id,
    has_light,
    ids_increasing,
    index_of_id,
    index_of_light,
    lemma_first_index_found,
    light_ids,
    light_ids_increasing,
    max_u8,
    occupant_of,
    occupants_opacity,
    BackgroundTile,
    Entity,
    EntityId,
    ForegroundTile,
    HitPoints,
    Light,
    LightId,
    Occupant,
    PackedEntity,
    Rational,
    WorldCell,
};
use crate::geometry::{CardinalDirection, Coordinate, GridSize};
use crate::world::cells::{
    cells_match,
    lemma_cells_add,
    lemma_cells_remove,
    lemma_cells_retouch,
    lemma_cells_same_occupants,
    records,
    terrain_kept,
};
use crate::world::tables::{
    entities_named,
    lemma_entities_push,
    lemma_entities_remove,
    lemma_entities_update,
    lemma_find_entity,
    lemma_find_light,
    lemma_found_entity,
    lemma_found_light,
    lemma_lights_push,
    lemma_lights_remove,
    lemma_lights_update,
    lemma_players_kept_twice,
    lights_follow,
    lights_unshared,
    npc_ids_of,
    players_kept,
    tiles_shown,
};
use crate::world::turns::{after_turn, lights_after_turn, occupants_after_turn};

pub mod actions;
pub mod cells;
pub mod changes;
pub mod tables;
pub mod turns;

verus! {

/// How far a teleport reaches, in steps.
pub const BLINK_RANGE: u32 = 8;

/// One step of a level's description.
#[derive(Clone, Copy, Debug, PartialEq, Eq, Structural)]
pub enum Instruction {
    SetBackground(Coordinate, BackgroundTile),
    AddEntity(Coordinate, PackedEntity),
}

/// The cells of a world, held in a `grid_2d::Grid`. What the grid is
/// inside is `grid_2d`'s affair: all that is known of it here is what the
/// functions below say.
#[verifier::external_body]
pub struct WorldCells {
    grid: grid_2d::Grid<WorldCell>,
}

/// What the grid holds, in row-major order: for each coordinate inside it,
/// what its `get` returns there.
pub uninterp spec fn world_cells(grid: WorldCells) -> Seq<WorldCell>;

/// The size that the grid was made with: what its `size` returns.
pub uninterp spec fn world_grid_size(grid: WorldCells) -> GridSize;

impl WorldCells {
    /// The cells in row-major order.
    pub open spec fn cells(&self) -> Seq<WorldCell> {
        world_cells(*self)
    }

    pub open spec fn size_spec(&self) -> GridSize {
        world_grid_size(*self)
    }

    /// The size is admissible and there is one cell for each coordinate.
    pub open spec fn wf(&self) -> bool {
        &&& self.size_spec().valid()
        &&& self.cells().len() == self.size_spec().area()
    }

    /// The cell at `coord`, which lies inside the grid.
    pub open spec fn at(&self, coord: Coordinate) -> WorldCell {
        self.cells()[self.size_spec().index_of(coord)]
    }

    /// Makes a grid of `size` with `grid_2d::Grid::new_fn`: every cell has
    /// `tile` for its background, and nothing stands on it. The size is one
    /// that can be built: on a size with rows but no columns the crate's
    /// walk over the cells does not end.
    #[verifier::external_body]
    pub(crate) fn new_filled(size: GridSize, tile: BackgroundTile) -> (g: WorldCells)
        requires
            size.buildable(),
        ensures
            world_grid_size(g) == size,
            world_cells(g).len() == size.area(),
            forall|i: int|
                0 <= i < size.area() ==> (#[trigger] world_cells(g)[i]).background_spec() == tile
                    && world_cells(g)[i].occupants_spec() == Seq::<Occupant>::empty(),
    {
        let size = coord_2d::Size::new(size.width, size.height);
        let cell = |_| WorldCell::new(tile);
        WorldCells { grid: grid_2d::Grid::new_fn(size, cell) }
    }

    /// Reads the size with `grid_2d::Grid::size`.
    #[verifier::external_body]
    pub(crate) fn size(&self) -> (s: GridSize)
        ensures
            s == world_grid_size(*self),
    {
        GridSize { width: self.grid.width(), height: self.grid.height() }
    }

    /// Reads one cell with `grid_2d::Grid::get`, which returns `None`
    /// outside the grid.
    #[verifier::external_body]
    pub(crate) fn get(&self, coord: Coordinate) -> (r: Option<&WorldCell>)
        ensures
            r.is_some() == world_grid_size(*self).contains_spec(coord),
            r.is_some() ==> *r.unwrap() == world_cells(*self)[world_grid_size(*self).index_of(
                coord,
            )],
    {
        self.grid.get(coord_2d::Coord::new(coord.x, coord.y))
    }

    /// Borrows one cell with `grid_2d::Grid::get_checked_mut`, which takes
    /// every coordinate inside the grid.
    #[verifier::external_body]
    pub(crate) fn get_mut(&mut self, coord: Coordinate) -> (cell: &mut WorldCell)
        requires
            world_grid_size(*old(self)).contains_spec(coord),
        ensures
            *cell == world_cells(*old(self))[world_grid_size(*old(self)).index_of(coord)],
            world_grid_size(*final(self)) == world_grid_size(*old(self)),
            world_cells(*final(self)) == world_cells(*old(self)).update(
                world_grid_size(*old(self)).index_of(coord),
                *final(cell),
            ),
    {
        self.grid.get_checked_mut(coord_2d::Coord::new(coord.x, coord.y))
    }
}

/// The state of one level.
pub struct World {
    grid: WorldCells,
    lights: Vec<(LightId, Light)>,
    entities: Vec<Entity>,
    next_id: EntityId,
    next_light_id: LightId,
}

impl World {
    pub closed spec fn size_spec(&self) -> GridSize {
        self.grid.size_spec()
    }

    /// The cells in row-major order.
    pub closed spec fn cells_spec(&self) -> Seq<WorldCell> {
        self.grid.cells()
    }

    /// The entities, in the order of their identities.
    pub closed spec fn entities_spec(&self) -> Seq<Entity> {
        self.entities@
    }

    /// The lights with their identities, in the order of the identities.
    pub closed spec fn lights_spec(&self) -> Seq<(LightId, Light)> {
        self.lights@
    }

    /// The identity that the next entity gets.
    pub closed spec fn next_id_spec(&self) -> EntityId {
        self.next_id
    }

    /// The identity that the next light gets.
    pub closed spec fn next_light_id_spec(&self) -> LightId {
        self.next_light_id
    }

    pub closed spec fn grid_wf(&self) -> bool {
        self.grid.wf()
    }

    /// The cell at `coord`, which lies inside the grid.
    pub open spec fn cell_spec(&self, coord: Coordinate) -> WorldCell {
        self.cells_spec()[self.size_spec().index_of(coord)]
    }

    /// The world's invariant: the tables are ordered by identity, lights
    /// stay with their entities, and each entity inside the grid is
    /// recorded by exactly the cell it stands on.
    pub open spec fn wf(&self) -> bool {
        &&& self.grid_wf()
        &&& self.size_spec().valid()
        &&& self.cells_spec().len() == self.size_spec().area()
        &&& ids_increasing(self.entities_spec())
        &&& forall|i: int|
            0 <= i < self.entities_spec().len() ==> (#[trigger] self.entities_spec()[i]).id
                < self.next_id_spec()
        &&& light_ids_increasing(self.lights_spec())
        &&& forall|i: int|
            0 <= i < self.lights_spec().len() ==> (#[trigger] self.lights_spec()[i]).0
                < self.next_light_id_spec()
        &&& lights_follow(self.entities_spec(), self.lights_spec())
        &&& lights_unshared(self.entities_spec())
        &&& cells_match(self.cells_spec(), self.size_spec(), self.entities_spec())
    }

    /// The entity `id`, if the world has it.
    pub open spec fn entity_spec(&self, id: EntityId) -> Option<Entity> {
        find_entity_spec(self.entities_spec(), id)
    }

    /// The light `id`, if the world has it.
    pub open spec fn light_spec(&self, id: LightId) -> Option<Light> {
        find_light_spec(self.lights_spec(), id)
    }

    /// How much of the light that passes the cell at `coord` it takes
    /// away: the greater of what its terrain and what the entities on it
    /// take, from 0 for clear to 255 for opaque.
    pub open spec fn opacity_at(&self, coord: Coordinate) -> u8 {
        max_u8(
            background_opacity(self.cell_spec(coord).background_spec()),
            occupants_opacity(self.cell_spec(coord).occupants_spec(), self.entities_spec()),
        )
    }

    /// The opacity of every cell, in row-major order.
    pub open spec fn opacity_view(&self) -> Seq<u8> {
        Seq::new(
            self.size_spec().area() as nat,
            |i: int| self.opacity_at(self.size_spec().coord_at(i)),
        )
    }

    /// Whether terrain or a standing entity closes the cell at `coord` to movement.
    pub open spec fn solid_at(&self, coord: Coordinate) -> bool {
        self.cell_spec(coord).is_solid_spec()
    }

    /// The solidity of every cell, in row-major order.
    pub open spec fn solid_view(&self) -> Seq<bool> {
        Seq::new(
            self.size_spec().area() as nat,
            |i: int| self.solid_at(self.size_spec().coord_at(i)),
        )
    }

    /// Whether this is a world of `size` in which all is floor and nothing
    /// stands, that has given out no identity yet.
    pub open spec fn is_new(&self, size: GridSize) -> bool {
        &&& self.size_spec() == size
        &&& self.entities_spec() == Seq::<Entity>::empty()
        &&& self.lights_spec() == Seq::<(LightId, Light)>::empty()
        &&& self.next_id_spec() == 0
        &&& self.next_light_id_spec() == 0
        &&& self.cells_spec().len() == size.area()
        &&& forall|i: int|
            0 <= i < size.area() ==> (#[trigger] self.cells_spec()[i]).background_spec()
                == BackgroundTile::Floor && self.cells_spec()[i].occupants_spec() == Seq::<
                Occupant,
            >::empty()
    }

    /// A world of floor on which nothing stands.
    pub fn new(size: GridSize) -> (world: World)
        requires
            size.buildable(),
        ensures
            world.wf(),
            world.is_new(size),
    {
        World {
            grid: WorldCells::new_filled(size, BackgroundTile::Floor),
            lights: Vec::new(),
            entities: Vec::new(),
            next_id: 0,
            next_light_id: 0,
        }
    }

    pub fn size(&self) -> (s: GridSize)
        ensures
            s == self.size_spec(),
    {
        self.grid.size()
    }

    /// The identity that the next entity gets.
    pub fn next_id(&self) -> (r: EntityId)
        ensures
            r == self.next_id_spec(),
    {
        self.next_id
    }

    /// The identity that the next light gets.
    pub fn next_light_id(&self) -> (r: LightId)
        ensures
            r == self.next_light_id_spec(),
    {
        self.next_light_id
    }

    /// The entities, in the order of their identities.
    pub fn entities(&self) -> (r: &Vec<Entity>)
        ensures
            r@ == self.entities_spec(),
    {
        &self.entities
    }

    /// The lights with their identities, in the order of the identities.
    pub fn lights(&self) -> (r: &Vec<(LightId, Light)>)
        ensures
            r@ == self.lights_spec(),
    {
        &self.lights
    }

    /// The cell at `coord`, or `None` where `coord` lies outside the grid.
    pub fn cell(&self, coord: Coordinate) -> (r: Option<&WorldCell>)
        requires
            self.wf(),
        ensures
            r.is_some() == self.size_spec().contains_spec(coord),
            r.is_some() ==> *r.unwrap() == self.cell_spec(coord),
    {
        self.grid.get(coord)
    }

    /// Where in the table the entity `id` stands.
    pub fn find_entity(&self, id: EntityId) -> (r: Option<usize>)
        ensures
            r.is_some() == has_id(self.entities_spec(), id),
            r.is_some() ==> r.unwrap() < self.entities_spec().len()
                && self.entities_spec()[r.unwrap() as int].id == id,
            r.is_some() && ids_increasing(self.entities_spec()) ==> r.unwrap() == index_of_id(
                self.entities_spec(),
                id,
            ),
    {
        let mut i: usize = 0;
        while i < self.entities.len()
            invariant
                i <= self.entities@.len(),
                forall|j: int| 0 <= j < i ==> (#[trigger] self.entities@[j]).id != id,
            decreases self.entities@.len() - i,
        {
            if self.entities[i].id == id {
                proof {
                    assert(entity_ids(self.entities_spec())[i as int] == id);
                    if ids_increasing(self.entities_spec()) {
                        lemma_find_entity(self.entities_spec(), i as int);
                    }
                }
                return Some(i);
            }
            i += 1;
        }
        proof {
            if has_id(self.entities_spec(), id) {
                lemma_found_entity(self.entities_spec(), id);
            }
        }
        None
    }

    /// Where in the table the light `id` stands.
    pub fn find_light(&self, id: LightId) -> (r: Option<usize>)
        ensures
            r.is_some() == has_light(self.lights_spec(), id),
            r.is_some() ==> r.unwrap() < self.lights_spec().len()
                && self.lights_spec()[r.unwrap() as int].0 == id,
            r.is_some() && light_ids_increasing(self.lights_spec()) ==> r.unwrap()
                == index_of_light(self.lights_spec(), id),
    {
        let mut i: usize = 0;
        while i < self.lights.len()
            invariant
                i <= self.lights@.len(),
                forall|j: int| 0 <= j < i ==> (#[trigger] self.lights@[j]).0 != id,
            decreases self.lights@.len() - i,
        {
            if self.lights[i].0 == id {
                proof {
                    assert(light_ids(self.lights_spec())[i as int] == id);
                    if light_ids_increasing(self.lights_spec()) {
                        lemma_find_light(self.lights_spec(), i as int);
                    }
                }
                return Some(i);
            }
            i += 1;
        }
        proof {
            if has_light(self.lights_spec(), id) {
                lemma_found_light(self.lights_spec(), id);
            }
        }
        None
    }

    /// The entity `id`, if the world has it.
    pub fn entity(&self, id: EntityId) -> (r: Option<Entity>)
        requires
            self.wf(),
        ensures
            r == self.entity_spec(id),
    {
        match self.find_entity(id) {
            Some(i) => Some(self.entities[i]),
            None => None,
        }
    }

    /// The light `id`, if the world has it.
    pub fn light(&self, id: LightId) -> (r: Option<Light>)
        requires
            self.wf(),
        ensures
            r == self.light_spec(id),
    {
        match self.find_light(id) {
            Some(i) => Some(self.lights[i].1),
            None => None,
        }
    }

    /// The entities that stand on the cell at `coord`, in the order in
    /// which they came to it, and none outside the grid.
    pub fn entities_at(&self, coord: Coordinate) -> (r: Vec<Entity>)
        requires
            self.wf(),
        ensures
            r@ == if self.size_spec().contains_spec(coord) {
                entities_named(self.cell_spec(coord).occupants_spec(), self.entities_spec())
            } else {
                Seq::empty()
            },
    {
        let mut found: Vec<Entity> = Vec::new();
        match self.grid.get(coord) {
            Some(cell) => {
                let occupants = cell.occupants();
                let mut k: usize = 0;
                while k < occupants.len()
                    invariant
                        k <= occupants@.len(),
                        self.wf(),
                        found@ == entities_named(occupants@.take(k as int), self.entities_spec()),
                    decreases occupants@.len() - k,
                {
                    proof {
                        assert(occupants@.take(k + 1).drop_last() == occupants@.take(k as int));
                        assert(occupants@.take(k + 1).last() == occupants@[k as int]);
                    }
                    match self.entity(occupants[k].id) {
                        Some(entity) => {
                            found.push(entity);
                        },
                        None => {},
                    }
                    k += 1;
                }
                proof {
                    assert(occupants@.take(k as int) == occupants@);
                }
            },
            None => {},
        }
        found
    }

    /// What the entities on the cell at `coord` show as, in the order in
    /// which they came to it.
    pub fn foreground_tiles(&self, coord: Coordinate) -> (r: Vec<ForegroundTile>)
        requires
            self.wf(),
        ensures
            r@ == tiles_shown(
                if self.size_spec().contains_spec(coord) {
                    entities_named(self.cell_spec(coord).occupants_spec(), self.entities_spec())
                } else {
                    Seq::empty()
                },
            ),
    {
        let entities = self.entities_at(coord);
        let mut tiles: Vec<ForegroundTile> = Vec::new();
        let mut k: usize = 0;
        while k < entities.len()
            invariant
                k <= entities@.len(),
                tiles@ == tiles_shown(entities@.take(k as int)),
            decreases entities@.len() - k,
        {
            proof {
                assert(entities@.take(k + 1).drop_last() == entities@.take(k as int));
                assert(entities@.take(k + 1).last() == entities@[k as int]);
            }
            match entities[k].foreground_tile {
                Some(tile) => {
                    tiles.push(tile);
                },
                None => {},
            }
            k += 1;
        }
        proof {
            assert(entities@.take(k as int) == entities@);
        }
        tiles
    }

    /// The opacity of the cell at `coord`; outside the grid all is opaque.
    ///
    /// This asks nothing of the world, so that the sweep can call it; what
    /// it returns is stated for a world that keeps its invariant.
    pub fn opacity_checked(&self, coord: Coordinate) -> (r: u8)
        ensures
            self.wf() && self.size_spec().contains_spec(coord) ==> r == self.opacity_at(coord),
            self.wf() && !self.size_spec().contains_spec(coord) ==> r == 255,
    {
        match self.grid.get(coord) {
            None => 255,
            Some(cell) => {
                let occupants = cell.occupants();
                let mut best: u8 = match cell.background_tile() {
                    BackgroundTile::IceWall => 128,
                    _ => 0,
                };
                let ghost background = best;
                let mut k: usize = 0;
                while k < occupants.len()
                    invariant
                        k <= occupants@.len(),
                        ids_increasing(self.entities_spec()) ==> best == max_u8(
                            background,
                            occupants_opacity(occupants@.take(k as int), self.entities_spec()),
                        ),
                    decreases occupants@.len() - k,
                {
                    proof {
                        assert(occupants@.take(k + 1).drop_last() == occupants@.take(k as int));
                        assert(occupants@.take(k + 1).last() == occupants@[k as int]);
                    }
                    match self.find_entity(occupants[k].id) {
                        Some(i) => {
                            let o = self.entities[i].opacity();
                            if o > best {
                                best = o;
                            }
                        },
                        None => {},
                    }
                    k += 1;
                }
                proof {
                    assert(occupants@.take(k as int) == occupants@);
                }
                best
            },
        }
    }

    /// Whether the cell at `coord` is solid, and `None` outside the grid.
    ///
    /// This asks nothing of the world, so that the search can call it; what
    /// it returns is stated for a world that keeps its invariant.
    pub fn solid_checked(&self, coord: Coordinate) -> (r: Option<bool>)
        ensures
            self.wf() ==> r == if self.size_spec().contains_spec(coord) {
                Some(self.solid_at(coord))
            } else {
                None
            },
    {
        match self.grid.get(coord) {
            Some(cell) => Some(cell.is_solid()),
            None => None,
        }
    }

    /// Whether the cell at `coord` is solid or holds an autonomous actor,
    /// and `None` outside the grid. This asks nothing of the world.
    pub fn occupied_checked(&self, coord: Coordinate) -> (r: Option<bool>)
        ensures
            self.wf() ==> r == if self.size_spec().contains_spec(coord) {
                Some(self.solid_at(coord) || self.cell_spec(coord).contains_npc_spec())
            } else {
                None
            },
    {
        match self.grid.get(coord) {
            Some(cell) => Some(cell.is_solid() || cell.contains_npc()),
            None => None,
        }
    }

    /// The opacity of the cell at `coord`, which lies inside the grid.
    pub fn opacity(&self, coord: Coordinate) -> (r: u8)
        requires
            self.wf(),
            self.size_spec().contains_spec(coord),
        ensures
            r == self.opacity_at(coord),
    {
        self.opacity_checked(coord)
    }

    /// Records `occupant` on the cell at `coord`.
    fn push_occupant(&mut self, coord: Coordinate, occupant: Occupant)
        requires
            old(self).grid_wf(),
            old(self).size_spec().contains_spec(coord),
        ensures
            final(self).grid_wf(),
            final(self).same_tables(old(self)),
            terrain_kept(old(self).cells_spec(), final(self).cells_spec()),
            forall|i: int|
                0 <= i < old(self).cells_spec().len() ==> (
                #[trigger] final(self).cells_spec()[i]).occupants_spec() == if i == old(
                    self,
                ).size_spec().index_of(coord) {
                    old(self).cells_spec()[i].occupants_spec().push(occupant)
                } else {
                    old(self).cells_spec()[i].occupants_spec()
                },
    {
        proof {
            self.grid.size_spec().lemma_index_in_range(coord);
        }
        let cell = self.grid.get_mut(coord);
        cell.push_occupant(occupant);
    }

    /// Forgets the record of the entity `id` on the cell at `coord`, and
    /// returns where in the cell it stood.
    fn remove_occupant(&mut self, coord: Coordinate, id: EntityId) -> (k: usize)
        requires
            old(self).grid_wf(),
            old(self).size_spec().contains_spec(coord),
            records(old(self).cell_spec(coord).occupants_spec(), id),
        ensures
            final(self).grid_wf(),
            final(self).same_tables(old(self)),
            terrain_kept(old(self).cells_spec(), final(self).cells_spec()),
            k == first_index_of(old(self).cell_spec(coord).occupants_spec(), id),
            k < old(self).cell_spec(coord).occupants_spec().len(),
            old(self).cell_spec(coord).occupants_spec()[k as int].id == id,
            forall|i: int|
                0 <= i < old(self).cells_spec().len() ==> (
                #[trigger] final(self).cells_spec()[i]).occupants_spec() == if i == old(
                    self,
                ).size_spec().index_of(coord) {
                    old(self).cells_spec()[i].occupants_spec().remove(k as int)
                } else {
                    old(self).cells_spec()[i].occupants_spec()
                },
    {
        proof {
            self.grid.size_spec().lemma_index_in_range(coord);
        }
        proof {
            lemma_first_index_found(
                self.cells_spec()[self.size_spec().index_of(coord)].occupants_spec(),
                id,
            );
        }
        let cell = self.grid.get_mut(coord);
        let found = cell.position_of(id);
        let k = match found {
            Some(k) => k,
            None => 0,
        };
        cell.remove_occupant_at(k);
        k
    }

    /// Sets the terrain of the cell at `coord`, which lies inside the grid.
    pub fn set_background(&mut self, coord: Coordinate, background_tile: BackgroundTile)
        requires
            old(self).wf(),
            old(self).size_spec().contains_spec(coord),
        ensures
            final(self).wf(),
            final(self).paved(old(self), coord, background_tile),
    {
        proof {
            let size = self.size_spec();
            size.lemma_index_in_range(coord);
            assert forall|c: Coordinate| c != coord && size.contains_spec(c) implies 0
                <= size.index_of(c) < size.area() && size.index_of(c) != size.index_of(
                coord,
            ) by {
                size.lemma_index_in_range(c);
                if size.index_of(c) == size.index_of(coord) {
                    size.lemma_index_injective(c, coord);
                }
            }
        }
        let ghost old_cells = self.cells_spec();
        let cell = self.grid.get_mut(coord);
        cell.set_background(background_tile);
        proof {
            lemma_cells_same_occupants(
                old_cells,
                self.cells_spec(),
                self.size_spec(),
                self.entities_spec(),
            );
        }
    }

    /// Makes the entity that `packed` describes and puts it at `coord`,
    /// with its light if it has one. The entity exists in the table even
    /// where `coord` lies outside the grid; no cell records it then.
    ///
    /// Returns the identity of the new entity: the identities are given out
    /// in increasing order, starting from 0.
    pub fn add_entity(&mut self, coord: Coordinate, packed: PackedEntity) -> (id: EntityId)
        requires
            old(self).wf(),
            old(self).next_id_spec() < u64::MAX,
            old(self).next_light_id_spec() < u64::MAX,
        ensures
            final(self).wf(),
            id == old(self).next_id_spec(),
            final(self).added(old(self), coord, packed),
            players_kept(old(self).entities_spec(), final(self).entities_spec()),
    {
        let ghost old_entities = self.entities_spec();
        let ghost old_lights = self.lights_spec();
        let ghost old_cells = self.cells_spec();
        let ghost size = self.size_spec();
        let id = self.next_id;
        self.next_id = self.next_id + 1;
        let light_index = match packed.light {
            Some(packed_light) => {
                let index = self.next_light_id;
                self.next_light_id = self.next_light_id + 1;
                self.lights.push((index, packed_light.light(coord)));
                Some(index)
            },
            None => None,
        };
        let entity = Entity {
            id,
            coord,
            foreground_tile: packed.foreground_tile,
            light_index,
            npc: packed.npc,
            player: packed.player,
            interactive: packed.interactive,
            solid: packed.solid,
            taking_damage_in_direction: None,
            hit_points: packed.hit_points,
            heal_countdown: None,
            remaining_turns: packed.remaining_turns,
        };
        self.entities.push(entity);
        if self.grid.size().contains(coord) {
            self.push_occupant(coord, entity.occupant());
        }
        proof {
            lemma_entities_push(old_entities, entity);
            if !contains_id(entity_ids(old_entities), id) {
            } else {
                lemma_found_entity(old_entities, id);
            }
            lemma_cells_add(
                old_cells,
                self.cells_spec(),
                size,
                old_entities,
                self.entities_spec(),
                entity,
            );
            match packed.light {
                Some(packed_light) => {
                    lemma_lights_push(
                        old_lights,
                        light_index.unwrap(),
                        packed_light.light_spec(coord),
                    );
                },
                None => {},
            }
            let new_entities = self.entities_spec();
            let new_lights = self.lights_spec();
            assert forall|i: int|
                0 <= i < new_entities.len() && (
                #[trigger] new_entities[i]).light_index.is_some() implies {
                let light = find_light_spec(new_lights, new_entities[i].light_index.unwrap());
                light.is_some() && light.unwrap().coord == new_entities[i].coord
            } by {
                if i < old_entities.len() {
                    assert(new_entities[i] == old_entities[i]);
                    let l = old_entities[i].light_index.unwrap();
                    assert(find_light_spec(old_lights, l).is_some());
                    lemma_found_light(old_lights, l);
                }
            }
            assert forall|i: int, j: int|
                0 <= i < new_entities.len() && 0 <= j < new_entities.len() && i != j && (
                #[trigger] new_entities[i]).light_index.is_some()
                    implies new_entities[i].light_index
                != (#[trigger] new_entities[j]).light_index by {
                if i < old_entities.len() && j < old_entities.len() {
                    assert(new_entities[i] == old_entities[i]);
                    assert(new_entities[j] == old_entities[j]);
                } else if i < old_entities.len() {
                    assert(new_entities[i] == old_entities[i]);
                    let l = old_entities[i].light_index.unwrap();
                    assert(find_light_spec(old_lights, l).is_some());
                    lemma_found_light(old_lights, l);
                } else if new_entities[j].light_index.is_some() {
                    assert(new_entities[j] == old_entities[j]);
                    let l = old_entities[j].light_index.unwrap();
                    assert(find_light_spec(old_lights, l).is_some());
                    lemma_found_light(old_lights, l);
                }
            }
        }
        id
    }

    /// Moves the entity at position `index` of the table to `coord`: the
    /// cell it stood on forgets it, the cell at `coord` records it, and its
    /// light goes with it. Outside the grid there is no cell to do either.
    pub fn move_entity_to_coord(&mut self, index: usize, coord: Coordinate)
        requires
            old(self).wf(),
            index < old(self).entities_spec().len(),
        ensures
            final(self).wf(),
            final(self).moved(old(self), old(self).entities_spec()[index as int].id, coord),
            players_kept(old(self).entities_spec(), final(self).entities_spec()),
    {
        let ghost entities = self.entities_spec();
        let ghost lights = self.lights_spec();
        let ghost cells = self.cells_spec();
        let ghost size = self.size_spec();
        let entity = self.entities[index];
        let moved = Entity { coord, ..entity };
        proof {
            lemma_find_entity(entities, index as int);
            lemma_entities_remove(entities, index as int);
            lemma_entities_update(entities, index as int, moved);
        }
        let mut k: usize = 0;
        if self.grid.size().contains(entity.coord) {
            k = self.remove_occupant(entity.coord, entity.id);
        }
        let ghost cells1 = self.cells_spec();
        proof {
            lemma_cells_remove(
                cells,
                cells1,
                size,
                entities,
                entities.remove(index as int),
                entity,
                k as int,
            );
        }
        if self.grid.size().contains(coord) {
            self.push_occupant(coord, moved.occupant());
        }
        proof {
            lemma_cells_add(
                cells1,
                self.cells_spec(),
                size,
                entities.remove(index as int),
                entities.update(index as int, moved),
                moved,
            );
        }
        self.entities[index] = moved;
        match entity.light_index {
            Some(light_index) => {
                match self.find_light(light_index) {
                    Some(j) => {
                        let light = self.lights[j].1;
                        proof {
                            lemma_lights_update(lights, j as int, Light { coord, ..light });
                        }
                        self.lights[j] = (light_index, Light { coord, ..light });
                    },
                    None => {},
                }
            },
            None => {},
        }
        proof {
            let new_entities = self.entities_spec();
            let new_lights = self.lights_spec();
            assert(light_ids(new_lights) =~= light_ids(lights));
            assert(entity_ids(new_entities) =~= entity_ids(entities));
            assert forall|i: int| 0 <= i < new_entities.len() implies (
            #[trigger] new_entities[i]).id < self.next_id_spec() by {
                assert(entities[i].id < self.next_id_spec());
            }
            assert forall|i: int| 0 <= i < new_lights.len() implies (#[trigger] new_lights[i]).0
                < self.next_light_id_spec() by {
                assert(lights[i].0 < self.next_light_id_spec());
            }
            assert forall|i: int|
                0 <= i < new_entities.len() && (
                #[trigger] new_entities[i]).light_index.is_some() implies {
                let light = find_light_spec(new_lights, new_entities[i].light_index.unwrap());
                light.is_some() && light.unwrap().coord == new_entities[i].coord
            } by {
                let l = entities[i].light_index.unwrap();
                assert(find_light_spec(lights, l).is_some());
                if i != index {
                    assert(entities[index as int].light_index != entities[i].light_index);
                }
            }
            assert forall|i: int, j: int|
                0 <= i < new_entities.len() && 0 <= j < new_entities.len() && i != j && (
                #[trigger] new_entities[i]).light_index.is_some()
                    implies new_entities[i].light_index
                != (#[trigger] new_entities[j]).light_index by {
                assert(entities[i].light_index != entities[j].light_index);
            }
        }
    }

    /// Takes the entity `id` out of the world, with its light and the
    /// record of it on its cell. The player is never taken out, and an
    /// identity that the world does not have changes nothing.
    pub fn remove_entity(&mut self, id: EntityId)
        requires
            old(self).wf(),
        ensures
            final(self).wf(),
            old(self).removes(id) ==> final(self).removed(old(self), id),
            !old(self).removes(id) ==> *final(self) == *old(self),
            players_kept(old(self).entities_spec(), final(self).entities_spec()),
    {
        let ghost entities = self.entities_spec();
        let ghost lights = self.lights_spec();
        let ghost cells = self.cells_spec();
        let ghost size = self.size_spec();
        let index = match self.find_entity(id) {
            Some(index) => index,
            None => {
                return ;
            },
        };
        let entity = self.entities[index];
        if entity.player {
            return ;
        }
        proof {
            lemma_find_entity(entities, index as int);
            lemma_entities_remove(entities, index as int);
        }
        let mut k: usize = 0;
        if self.grid.size().contains(entity.coord) {
            k = self.remove_occupant(entity.coord, entity.id);
        }
        proof {
            lemma_cells_remove(
                cells,
                self.cells_spec(),
                size,
                entities,
                entities.remove(index as int),
                entity,
                k as int,
            );
        }
        self.entities.remove(index);
        match entity.light_index {
            Some(light_index) => {
                match self.find_light(light_index) {
                    Some(j) => {
                        proof {
                            lemma_lights_remove(lights, j as int);
                        }
                        self.lights.remove(j);
                    },
                    None => {},
                }
            },
            None => {},
        }
        proof {
            let new_entities = self.entities_spec();
            let new_lights = self.lights_spec();
            assert forall|i: int| 0 <= i < new_entities.len() implies (
            #[trigger] new_entities[i]).id < self.next_id_spec() by {
                let a = if i < index {
                    i
                } else {
                    i + 1
                };
                assert(new_entities[i] == entities[a]);
            }
            assert forall|i: int| 0 <= i < new_lights.len() implies (#[trigger] new_lights[i]).0
                < self.next_light_id_spec() by {
                if new_lights != lights {
                    let j = index_of_light(lights, entity.light_index.unwrap());
                    let a = if i < j {
                        i
                    } else {
                        i + 1
                    };
                    assert(new_lights[i] == lights[a]);
                }
            }
            assert forall|i: int|
                0 <= i < new_entities.len() && (
                #[trigger] new_entities[i]).light_index.is_some() implies {
                let light = find_light_spec(new_lights, new_entities[i].light_index.unwrap());
                light.is_some() && light.unwrap().coord == new_entities[i].coord
            } by {
                let a = if i < index {
                    i
                } else {
                    i + 1
                };
                assert(new_entities[i] == entities[a]);
                let l = entities[a].light_index.unwrap();
                assert(find_light_spec(lights, l).is_some());
                assert(entities[a].light_index != entities[index as int].light_index);
            }
            assert forall|i: int, j: int|
                0 <= i < new_entities.len() && 0 <= j < new_entities.len() && i != j && (
                #[trigger] new_entities[i]).light_index.is_some()
                    implies new_entities[i].light_index
                != (#[trigger] new_entities[j]).light_index by {
                let a = if i < index {
                    i
                } else {
                    i + 1
                };
                let b = if j < index {
                    j
                } else {
                    j + 1
                };
                assert(new_entities[i] == entities[a]);
                assert(new_entities[j] == entities[b]);
                assert(entities[a].light_index != entities[b].light_index);
            }
        }
    }

    /// Replaces the entity at position `index` by one that differs from it
    /// in nothing that a cell or a light depends on.
    fn retouch(&mut self, index: usize, entity: Entity)
        requires
            old(self).wf(),
            index < old(self).entities_spec().len(),
            entity.id == old(self).entities_spec()[index as int].id,
            entity.coord == old(self).entities_spec()[index as int].coord,
            entity.light_index == old(self).entities_spec()[index as int].light_index,
            occupant_of(entity) == occupant_of(old(self).entities_spec()[index as int]),
            old(self).entities_spec()[index as int].hit_points.is_some()
                ==> entity.hit_points.is_some(),
        ensures
            players_kept(old(self).entities_spec(), final(self).entities_spec()),
            final(self).wf(),
            final(self).size_spec() == old(self).size_spec(),
            final(self).next_id_spec() == old(self).next_id_spec(),
            final(self).next_light_id_spec() == old(self).next_light_id_spec(),
            final(self).lights_spec() == old(self).lights_spec(),
            final(self).cells_spec() == old(self).cells_spec(),
            final(self).entities_spec() == old(self).entities_spec().update(index as int, entity),
    {
        let ghost entities = self.entities_spec();
        proof {
            lemma_find_entity(entities, index as int);
            lemma_entities_update(entities, index as int, entity);
            lemma_cells_retouch(
                self.cells_spec(),
                self.cells_spec(),
                self.size_spec(),
                entities,
                entities.update(index as int, entity),
                entities[index as int],
                entity,
            );
        }
        self.entities[index] = entity;
        proof {
            let new_entities = self.entities_spec();
            assert forall|i: int| 0 <= i < new_entities.len() implies (
            #[trigger] new_entities[i]).id < self.next_id_spec() by {
                assert(entities[i].id < self.next_id_spec());
            }
            assert forall|i: int|
                0 <= i < new_entities.len() && (
                #[trigger] new_entities[i]).light_index.is_some() implies {
                let light = find_light_spec(
                    self.lights_spec(),
                    new_entities[i].light_index.unwrap(),
                );
                light.is_some() && light.unwrap().coord == new_entities[i].coord
            } by {
                assert(entities[i].light_index.is_some());
            }
            assert forall|i: int, j: int|
                0 <= i < new_entities.len() && 0 <= j < new_entities.len() && i != j && (
                #[trigger] new_entities[i]).light_index.is_some()
                    implies new_entities[i].light_index
                != (#[trigger] new_entities[j]).light_index by {
                assert(entities[i].light_index != entities[j].light_index);
            }
        }
    }

    /// Replaces the light at position `j` by one at the same place.
    fn relight(&mut self, j: usize, light: Light)
        requires
            old(self).wf(),
            j < old(self).lights_spec().len(),
            light.coord == old(self).lights_spec()[j as int].1.coord,
        ensures
            players_kept(old(self).entities_spec(), final(self).entities_spec()),
            final(self).wf(),
            final(self).size_spec() == old(self).size_spec(),
            final(self).next_id_spec() == old(self).next_id_spec(),
            final(self).next_light_id_spec() == old(self).next_light_id_spec(),
            final(self).entities_spec() == old(self).entities_spec(),
            final(self).cells_spec() == old(self).cells_spec(),
            final(self).lights_spec() == old(self).lights_spec().update(
                j as int,
                (old(self).lights_spec()[j as int].0, light),
            ),
    {
        let ghost lights = self.lights_spec();
        let id = self.lights[j].0;
        proof {
            lemma_find_light(lights, j as int);
            lemma_lights_update(lights, j as int, light);
        }
        self.lights[j] = (id, light);
        proof {
            let new_lights = self.lights_spec();
            let entities = self.entities_spec();
            assert forall|i: int| 0 <= i < new_lights.len() implies (#[trigger] new_lights[i]).0
                < self.next_light_id_spec() by {
                assert(lights[i].0 < self.next_light_id_spec());
            }
            assert forall|i: int|
                0 <= i < entities.len() && (#[trigger] entities[i]).light_index.is_some() implies {
                let found = find_light_spec(new_lights, entities[i].light_index.unwrap());
                found.is_some() && found.unwrap().coord == entities[i].coord
            } by {
                assert(find_light_spec(lights, entities[i].light_index.unwrap()).is_some());
            }
        }
    }

    /// Sets the number of turns after which the entity `id`, which the
    /// world has, heals those around it.
    pub fn set_heal_countdown(&mut self, id: EntityId, heal_countdown: Option<u32>) -> (r: Result<
        ApplyAction,
        CancelAction,
    >)
        requires
            old(self).wf(),
            old(self).entity_spec(id).is_some(),
        ensures
            players_kept(old(self).entities_spec(), final(self).entities_spec()),
            final(self).wf(),
            r == Ok::<ApplyAction, CancelAction>(ApplyAction::Done),
            final(self).retouched(
                old(self),
                id,
                Entity { heal_countdown, ..old(self).entity_spec(id).unwrap() },
            ),
    {
        let index = self.find_entity(id).unwrap();
        let entity = self.entities[index];
        self.retouch(index, Entity { heal_countdown, ..entity });
        Ok(ApplyAction::Done)
    }

    /// Shows the entity `id` as `foreground`, if the world has it.
    pub fn set_foreground(&mut self, id: EntityId, foreground: ForegroundTile)
        requires
            old(self).wf(),
        ensures
            final(self).wf(),
            final(self).shown_as(old(self), id, foreground),
            players_kept(old(self).entities_spec(), final(self).entities_spec()),
    {
        match self.find_entity(id) {
            Some(index) => {
                let entity = self.entities[index];
                self.retouch(index, Entity { foreground_tile: Some(foreground), ..entity });
            },
            None => {},
        }
    }

    /// Marks the entity `id`, which the world has, as taking a blow from
    /// a direction, or as taking none.
    pub fn set_taking_damage_in_direction(&mut self, id: EntityId, value: Option<CardinalDirection>)
        requires
            old(self).wf(),
            old(self).entity_spec(id).is_some(),
        ensures
            players_kept(old(self).entities_spec(), final(self).entities_spec()),
            final(self).wf(),
            final(self).retouched(
                old(self),
                id,
                Entity { taking_damage_in_direction: value, ..old(self).entity_spec(id).unwrap() },
            ),
    {
        let index = self.find_entity(id).unwrap();
        let entity = self.entities[index];
        self.retouch(index, Entity { taking_damage_in_direction: value, ..entity });
    }

    /// Where in the table the light of the entity `id` stands.
    fn find_light_of(&self, id: EntityId) -> (r: Option<usize>)
        requires
            self.wf(),
        ensures
            r.is_some() == self.light_of(id).is_some(),
            r.is_some() ==> r.unwrap() < self.lights_spec().len() && r.unwrap() == index_of_light(
                self.lights_spec(),
                self.light_of(id).unwrap(),
            ) && self.lights_spec()[r.unwrap() as int].0 == self.light_of(id).unwrap(),
    {
        match self.find_entity(id) {
            Some(index) => {
                proof {
                    lemma_find_entity(self.entities_spec(), index as int);
                }
                match self.entities[index].light_index {
                    Some(light_index) => {
                        assert(find_light_spec(self.lights_spec(), light_index).is_some());
                        self.find_light(light_index)
                    },
                    None => None,
                }
            },
            None => None,
        }
    }

    /// Gives the light of the entity `id` a colour and a falloff, if the
    /// world has the entity and the entity a light.
    pub fn set_light_params(&mut self, id: EntityId, colour: Rgb24, diminish: Rational)
        requires
            old(self).wf(),
        ensures
            final(self).wf(),
            final(self).light_params_set(old(self), id, colour, diminish),
            players_kept(old(self).entities_spec(), final(self).entities_spec()),
    {
        match self.find_light_of(id) {
            Some(j) => {
                proof {
                    lemma_find_light(self.lights_spec(), j as int);
                }
                let light = self.lights[j].1;
                self.relight(j, Light { colour, diminish, ..light });
            },
            None => {},
        }
    }

    /// Sets the denominator of the falloff of the light of the entity `id`,
    /// if the world has the entity and the entity a light.
    pub fn set_light_diminish_denom(&mut self, id: EntityId, denom: u32)
        requires
            old(self).wf(),
        ensures
            final(self).wf(),
            final(self).light_denom_set(old(self), id, denom),
            players_kept(old(self).entities_spec(), final(self).entities_spec()),
    {
        match self.find_light_of(id) {
            Some(j) => {
                proof {
                    lemma_find_light(self.lights_spec(), j as int);
                }
                let light = self.lights[j].1;
                self.relight(
                    j,
                    Light { diminish: Rational { num: light.diminish.num, denom }, ..light },
                );
            },
            None => {},
        }
    }

    /// Lets the light of the entity `id` reach farther: `by` is added to
    /// the square of its range, which stops at the greatest `u32`.
    pub fn increase_light_radius(&mut self, id: EntityId, by: u32)
        requires
            old(self).wf(),
        ensures
            final(self).wf(),
            final(self).light_radius_raised(old(self), id, by),
            players_kept(old(self).entities_spec(), final(self).entities_spec()),
    {
        match self.find_light_of(id) {
            Some(j) => {
                proof {
                    lemma_find_light(self.lights_spec(), j as int);
                }
                let light = self.lights[j].1;
                let range_squared = if light.range_squared > u32::MAX - by {
                    u32::MAX
                } else {
                    light.range_squared + by
                };
                self.relight(j, Light { range_squared, ..light });
            },
            None => {},
        }
    }

    /// Raises the most hit points the entity `id` can have by `by`, where
    /// the world has the entity and the entity hit points. The sum stops at
    /// the greatest `u32`.
    pub fn increase_max_hit_points(&mut self, id: EntityId, by: u32)
        requires
            old(self).wf(),
        ensures
            final(self).wf(),
            final(self).max_hit_points_raised(old(self), id, by),
            players_kept(old(self).entities_spec(), final(self).entities_spec()),
    {
        match self.find_entity(id) {
            Some(index) => {
                let entity = self.entities[index];
                match entity.hit_points {
                    Some(hp) => {
                        let max = if hp.max > u32::MAX - by {
                            u32::MAX
                        } else {
                            hp.max + by
                        };
                        self.retouch(
                            index,
                            Entity {
                                hit_points: Some(HitPoints { current: hp.current, max }),
                                ..entity
                            },
                        );
                    },
                    None => {},
                }
            },
            None => {},
        }
    }

    /// Gives the entity `id` back `by` hit points, up to the most it can have.
    pub fn heal(&mut self, id: EntityId, by: u32) -> (r: Result<ApplyAction, CancelAction>)
        requires
            old(self).wf(),
        ensures
            players_kept(old(self).entities_spec(), final(self).entities_spec()),
            final(self).wf(),
            match old(self).entity_spec(id) {
                Some(e) => match World::healed(e, by) {
                    Ok(healed) => r == Ok::<ApplyAction, CancelAction>(ApplyAction::Done)
                        && final(self).retouched(old(self), id, healed),
                    Err(cancel) => r == Err::<ApplyAction, CancelAction>(cancel) && *final(self)
                        == *old(self),
                },
                None => r == Err::<ApplyAction, CancelAction>(CancelAction::NoEntity)
                    && *final(self) == *old(self),
            },
    {
        match self.find_entity(id) {
            Some(index) => {
                let entity = self.entities[index];
                match entity.hit_points {
                    Some(hp) => {
                        if hp.current < hp.max {
                            let current = if by > hp.max - hp.current {
                                hp.max
                            } else {
                                hp.current + by
                            };
                            self.retouch(
                                index,
                                Entity {
                                    hit_points: Some(HitPoints { current, max: hp.max }),
                                    ..entity
                                },
                            );
                            Ok(ApplyAction::Done)
                        } else {
                            Err(CancelAction::AlreadyFullHitPoints)
                        }
                    },
                    None => Err(CancelAction::NoField),
                }
            },
            None => Err(CancelAction::NoEntity),
        }
    }

    /// Takes `damage` hit points from the entity `id`, where the world has
    /// the entity and the entity hit points. An entity left with none is
    /// taken out of the world, unless it is the player.
    pub fn deal_damage(&mut self, id: EntityId, damage: u32)
        requires
            old(self).wf(),
        ensures
            final(self).wf(),
            final(self).damaged(old(self), id, damage),
            players_kept(old(self).entities_spec(), final(self).entities_spec()),
    {
        match self.find_entity(id) {
            Some(index) => {
                let entity = self.entities[index];
                proof {
                    lemma_find_entity(self.entities_spec(), index as int);
                }
                match entity.hit_points {
                    Some(hp) => {
                        let current = if hp.current <= damage {
                            0
                        } else {
                            hp.current - damage
                        };
                        let hit = Entity {
                            hit_points: Some(HitPoints { current, max: hp.max }),
                            ..entity
                        };
                        self.retouch(index, hit);
                        if current == 0 {
                            proof {
                                lemma_find_entity(self.entities_spec(), index as int);
                                assert(self.entities_spec().remove(index as int)
                                    =~= old(self).entities_spec().remove(index as int));
                            }
                            self.remove_entity(id);
                        }
                    },
                    None => {},
                }
            },
            None => {},
        }
    }

    /// The entity `id` without its identity and position, to be carried to
    /// another world.
    pub fn pack_entity(&self, id: EntityId) -> (r: PackedEntity)
        requires
            self.wf(),
            self.entity_spec(id).is_some(),
        ensures
            r == self.packed_spec(id),
    {
        let index = self.find_entity(id).unwrap();
        proof {
            lemma_find_entity(self.entities_spec(), index as int);
        }
        let entity = self.entities[index];
        let light = match entity.light_index {
            Some(light_index) => {
                assert(find_light_spec(self.lights_spec(), light_index).is_some());
                match self.light(light_index) {
                    Some(light) => Some(light.pack()),
                    None => None,
                }
            },
            None => None,
        };
        PackedEntity {
            foreground_tile: entity.foreground_tile,
            light,
            npc: entity.npc,
            player: entity.player,
            hit_points: entity.hit_points,
            interactive: entity.interactive,
            remaining_turns: entity.remaining_turns,
            solid: entity.solid,
        }
    }

    pub open spec fn packed_spec(&self, id: EntityId) -> PackedEntity {
        let e = self.entity_spec(id).unwrap();
        PackedEntity {
            foreground_tile: e.foreground_tile,
            light: match e.light_index {
                Some(l) => Some(self.light_spec(l).unwrap().pack_spec()),
                None => None,
            },
            npc: e.npc,
            player: e.player,
            hit_points: e.hit_points,
            interactive: e.interactive,
            remaining_turns: e.remaining_turns,
            solid: e.solid,
        }
    }

    /// The identities of the autonomous actors, in increasing order.
    pub fn npc_ids(&self) -> (r: Vec<EntityId>)
        ensures
            r@ == npc_ids_of(self.entities_spec()),
    {
        let mut ids: Vec<EntityId> = Vec::new();
        let mut i: usize = 0;
        while i < self.entities.len()
            invariant
                i <= self.entities@.len(),
                ids@ == npc_ids_of(self.entities@.take(i as int)),
            decreases self.entities@.len() - i,
        {
            proof {
                assert(self.entities@.take(i + 1).drop_last() == self.entities@.take(i as int));
                assert(self.entities@.take(i + 1).last() == self.entities@[i as int]);
            }
            if self.entities[i].npc {
                ids.push(self.entities[i].id);
            }
            i += 1;
        }
        proof {
            assert(self.entities@.take(i as int) == self.entities@);
        }
        ids
    }

    /// Lets one turn pass for the entities that last a number of turns
    /// only: one whose turns have run out leaves the world, with its light
    /// and the record of it on its cell, and the others have one turn less.
    pub fn reduce_remaining_turns(&mut self)
        requires
            old(self).wf(),
        ensures
            final(self).wf(),
            final(self).size_spec() == old(self).size_spec(),
            final(self).next_id_spec() == old(self).next_id_spec(),
            final(self).next_light_id_spec() == old(self).next_light_id_spec(),
            final(self).entities_spec() == after_turn(old(self).entities_spec()),
            final(self).lights_spec() == lights_after_turn(
                old(self).lights_spec(),
                old(self).entities_spec(),
            ),
            terrain_kept(old(self).cells_spec(), final(self).cells_spec()),
            forall|i: int|
                0 <= i < old(self).cells_spec().len() ==> (
                #[trigger] final(self).cells_spec()[i]).occupants_spec() == occupants_after_turn(
                    old(self).cells_spec()[i].occupants_spec(),
                    i,
                    old(self).size_spec(),
                    old(self).entities_spec(),
                ),
            players_kept(old(self).entities_spec(), final(self).entities_spec()),
    {
        let ghost entities = self.entities_spec();
        let ghost lights = self.lights_spec();
        let ghost cells = self.cells_spec();
        let ghost size = self.size_spec();
        let ghost mut j: int = 0;
        let mut i: usize = 0;
        while i < self.entities.len()
            invariant
                self.wf(),
                self.size_spec() == size,
                self.next_id_spec() == old(self).next_id_spec(),
                self.next_light_id_spec() == old(self).next_light_id_spec(),
                0 <= j <= entities.len(),
                i == after_turn(entities.take(j)).len(),
                self.entities_spec() == after_turn(entities.take(j)) + entities.skip(j),
                players_kept(entities, self.entities_spec()),
                self.lights_spec() == lights_after_turn(lights, entities.take(j)),
                terrain_kept(cells, self.cells_spec()),
                forall|c: int|
                    0 <= c < cells.len() ==> (#[trigger] self.cells_spec()[c]).occupants_spec()
                        == occupants_after_turn(
                        cells[c].occupants_spec(),
                        c,
                        size,
                        entities.take(j),
                    ),
            decreases entities.len() - j,
        {
            let ghost before = self.entities_spec();
            let entity = self.entities[i];
            proof {
                assert(j < entities.len());
                assert(before[i as int] == entities.skip(j)[0]);
                assert(entities.take(j + 1).drop_last() == entities.take(j));
                assert(entities.take(j + 1).last() == entities[j]);
                lemma_find_entity(before, i as int);
            }
            let expired = match entity.remaining_turns {
                Some(n) => n == 0 && !entity.player,
                None => false,
            };
            if expired {
                self.remove_entity(entity.id);
                proof {
                    assert(self.entities_spec() =~= after_turn(entities.take(j + 1))
                        + entities.skip(j + 1));
                }
            } else {
                let passed = match entity.remaining_turns {
                    Some(n) => if n > 0 {
                        Entity { remaining_turns: Some(n - 1), ..entity }
                    } else {
                        entity
                    },
                    None => entity,
                };
                self.retouch(i, passed);
                proof {
                    assert(self.entities_spec() =~= after_turn(entities.take(j + 1))
                        + entities.skip(j + 1));
                }
                i += 1;
            }
            proof {
                lemma_players_kept_twice(entities, before, self.entities_spec());
                j = j + 1;
            }
        }
        proof {
            assert(self.entities_spec().len() == after_turn(entities.take(j)).len()
                + entities.skip(j).len());
            assert(j == entities.len());
            assert(entities.take(j) == entities);
            assert(self.entities_spec() =~= after_turn(entities));
        }
    }
}

} // verus!
