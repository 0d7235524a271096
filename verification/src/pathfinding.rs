//! The distance field toward the player, the bounded search that each
//! actor makes over it, and the reservation of the cells they mean to enter.

use vstd::prelude::*;
use crate::entity::EntityId;
use crate::geometry::{CardinalDirection, Coordinate, GridSize};
use crate::outside::{coord_from_outside, outside_coord};
use crate::world::World;

verus! {

/// How many steps ahead an actor's search looks.
pub const MAX_DEPTH: u32 = 4;

/// What an actor commits to do.
#[derive(Clone, Copy, Debug, PartialEq, Eq, Structural)]
pub enum CommitmentType {
    Move,
    Cast,
    Heal(u32),
}

/// What the reservation grid keeps of one cell.
#[derive(Clone, Copy, Debug, PartialEq, Eq, Structural)]
pub struct CommitmentCell {
    pub seq: u64,
    pub direction: Option<CardinalDirection>,
    pub typ: CommitmentType,
}

/// The cells of a reservation grid, held in a `grid_2d::Grid`. What the grid is
/// inside is `grid_2d`'s affair: all that is known of it here is what the
/// functions below say.
#[verifier::external_body]
pub struct CommitmentCells {
    grid: grid_2d::Grid<CommitmentCell>,
}

/// What the grid holds, in row-major order: for each coordinate inside it,
/// what its `get` returns there.
pub uninterp spec fn commitment_cells(grid: CommitmentCells) -> Seq<CommitmentCell>;

/// The size that the grid was made with: what its `size` returns.
pub uninterp spec fn commitment_grid_size(grid: CommitmentCells) -> GridSize;

impl CommitmentCells {
    /// The cells in row-major order.
    pub open spec fn cells(&self) -> Seq<CommitmentCell> {
        commitment_cells(*self)
    }

    pub open spec fn size_spec(&self) -> GridSize {
        commitment_grid_size(*self)
    }

    /// The size is admissible and there is one cell for each coordinate.
    pub open spec fn wf(&self) -> bool {
        &&& self.size_spec().valid()
        &&& self.cells().len() == self.size_spec().area()
    }

    /// The cell at `coord`, which lies inside the grid.
    pub open spec fn at(&self, coord: Coordinate) -> CommitmentCell {
        self.cells()[self.size_spec().index_of(coord)]
    }

    /// Makes a grid of `size` with `grid_2d::Grid::new_clone`: every cell
    /// is `value`. The size is one that can be built: on a size with rows
    /// but no columns the crate's walk over the cells does not end.
    #[verifier::external_body]
    fn new_copy(size: GridSize, value: CommitmentCell) -> (g: CommitmentCells)
        requires
            size.buildable(),
        ensures
            commitment_grid_size(g) == size,
            commitment_cells(g).len() == size.area(),
            forall|i: int| 0 <= i < size.area() ==> commitment_cells(g)[i] == value,
    {
        let size = coord_2d::Size::new(size.width, size.height);
        CommitmentCells { grid: grid_2d::Grid::new_clone(size, value) }
    }

    /// Reads the size with `grid_2d::Grid::size`.
    #[verifier::external_body]
    fn size(&self) -> (s: GridSize)
        ensures
            s == commitment_grid_size(*self),
    {
        GridSize { width: self.grid.width(), height: self.grid.height() }
    }

    /// Reads one cell with `grid_2d::Grid::get`, which returns `None`
    /// outside the grid.
    #[verifier::external_body]
    fn get(&self, coord: Coordinate) -> (r: Option<&CommitmentCell>)
        ensures
            r.is_some() == commitment_grid_size(*self).contains_spec(coord),
            r.is_some() ==> *r.unwrap()
                == commitment_cells(*self)[commitment_grid_size(*self).index_of(coord)],
    {
        self.grid.get(coord_2d::Coord::new(coord.x, coord.y))
    }

    /// Replaces one cell through `grid_2d::Grid::get_checked_mut`, which
    /// takes every coordinate inside the grid.
    #[verifier::external_body]
    fn set(&mut self, coord: Coordinate, value: CommitmentCell)
        requires
            commitment_grid_size(*old(self)).contains_spec(coord),
        ensures
            commitment_grid_size(*final(self)) == commitment_grid_size(*old(self)),
            commitment_cells(*final(self)) == commitment_cells(*old(self)).update(
                commitment_grid_size(*old(self)).index_of(coord),
                value,
            ),
    {
        *self.grid.get_checked_mut(coord_2d::Coord::new(coord.x, coord.y)) = value;
    }
}

/// The cells that actors have claimed this turn. A claim is stamped with
/// the grid's epoch, so that moving the epoch on clears them all at once.
pub struct CommitmentGrid {
    seq: u64,
    grid: CommitmentCells,
}

/// One entry of the turn's list of committed actions.
pub type CommittedAction = (EntityId, CardinalDirection, CommitmentType);

impl CommitmentGrid {
    pub closed spec fn size_spec(&self) -> GridSize {
        self.grid.size_spec()
    }

    /// The cells in row-major order.
    pub closed spec fn cells_spec(&self) -> Seq<CommitmentCell> {
        self.grid.cells()
    }

    /// The current epoch.
    pub closed spec fn epoch_spec(&self) -> u64 {
        self.seq
    }

    pub closed spec fn grid_wf(&self) -> bool {
        self.grid.wf()
    }

    /// The grid's invariant: one cell for each coordinate, no cell stamped
    /// beyond the epoch, and every claim of this epoch has its direction.
    pub open spec fn wf(&self) -> bool {
        &&& self.grid_wf()
        &&& self.size_spec().valid()
        &&& self.cells_spec().len() == self.size_spec().area()
        &&& self.epoch_spec() >= 1
        &&& forall|i: int|
            0 <= i < self.cells_spec().len() ==> (#[trigger] self.cells_spec()[i]).seq
                <= self.epoch_spec() && (self.cells_spec()[i].seq == self.epoch_spec()
                ==> self.cells_spec()[i].direction.is_some())
    }

    /// Whether the cell at `coord` is claimed this epoch.
    pub open spec fn is_committed_spec(&self, coord: Coordinate) -> bool {
        self.size_spec().contains_spec(coord) && self.cells_spec()[self.size_spec().index_of(
            coord,
        )].seq == self.epoch_spec()
    }

    /// The claim on the cell at `coord`, if it is claimed this epoch.
    pub open spec fn get_spec(&self, coord: Coordinate) -> Option<
        (CardinalDirection, CommitmentType),
    > {
        if self.is_committed_spec(coord) {
            let cell = self.cells_spec()[self.size_spec().index_of(coord)];
            match cell.direction {
                Some(d) => Some((d, cell.typ)),
                None => None,
            }
        } else {
            None
        }
    }

    /// Whether this grid is `before` with the cell at `coord`, which lies
    /// inside it, claimed for an actor that enters it in `direction`.
    pub open spec fn claimed(
        &self,
        before: &CommitmentGrid,
        coord: Coordinate,
        direction: CardinalDirection,
        typ: CommitmentType,
    ) -> bool {
        &&& self.size_spec() == before.size_spec()
        &&& self.epoch_spec() == before.epoch_spec()
        &&& self.cells_spec() == before.cells_spec().update(
            before.size_spec().index_of(coord),
            CommitmentCell { seq: before.epoch_spec(), direction: Some(direction), typ },
        )
        &&& self.get_spec(coord) == Some((direction, typ))
        &&& forall|c: Coordinate| c != coord ==> #[trigger] self.get_spec(c) == before.get_spec(c)
    }

    /// A grid at epoch 1 in which nothing is claimed.
    pub fn new(size: GridSize) -> (g: CommitmentGrid)
        requires
            size.buildable(),
        ensures
            g.wf(),
            g.size_spec() == size,
            g.epoch_spec() == 1,
            forall|c: Coordinate| !g.is_committed_spec(c),
    {
        let grid = CommitmentCells::new_copy(
            size,
            CommitmentCell { seq: 0, direction: None, typ: CommitmentType::Move },
        );
        proof {
            assert forall|c: Coordinate| size.contains_spec(c) implies 0 <= size.index_of(c)
                < size.area() by {
                size.lemma_index_in_range(c);
            }
        }
        CommitmentGrid { seq: 1, grid }
    }

    pub fn size(&self) -> (s: GridSize)
        ensures
            s == self.size_spec(),
    {
        self.grid.size()
    }

    /// The current epoch.
    pub fn epoch(&self) -> (r: u64)
        ensures
            r == self.epoch_spec(),
    {
        self.seq
    }

    /// Releases every claim by moving the epoch on.
    pub fn clear(&mut self)
        requires
            old(self).wf(),
            old(self).epoch_spec() < u64::MAX,
        ensures
            final(self).wf(),
            final(self).size_spec() == old(self).size_spec(),
            final(self).epoch_spec() == old(self).epoch_spec() + 1,
            final(self).cells_spec() == old(self).cells_spec(),
            forall|c: Coordinate| !final(self).is_committed_spec(c),
    {
        self.seq = self.seq + 1;
        proof {
            let size = self.size_spec();
            assert forall|c: Coordinate| size.contains_spec(c) implies 0 <= size.index_of(c)
                < size.area() by {
                size.lemma_index_in_range(c);
            }
        }
    }

    /// Claims the cell at `coord` for an actor that enters it in
    /// `direction`; outside the grid there is nothing to claim.
    pub fn commit(&mut self, coord: Coordinate, direction: CardinalDirection, typ: CommitmentType)
        requires
            old(self).wf(),
        ensures
            final(self).wf(),
            if old(self).size_spec().contains_spec(coord) {
                final(self).claimed(old(self), coord, direction, typ)
            } else {
                *final(self) == *old(self)
            },
            forall|c: Coordinate|
                c != coord
                    ==> #[trigger] final(self).is_committed_spec(c)
                    == old(self).is_committed_spec(c),
    {
        if self.grid.size().contains(coord) {
            proof {
                let size = self.size_spec();
                size.lemma_index_in_range(coord);
                assert forall|c: Coordinate| c != coord && size.contains_spec(c) implies 0
                    <= size.index_of(c) < size.area() && size.index_of(c) != size.index_of(
                    coord,
                ) by {
                    size.lemma_index_in_range(c);
                    if size.index_of(c) == size.index_of(coord) {
                        size.lemma_index_injective(c, coord);
                    }
                }
            }
            self.grid.set(coord, CommitmentCell { seq: self.seq, direction: Some(direction), typ });
        }
    }

    /// Whether the cell at `coord` is claimed this epoch. This asks nothing
    /// of the grid, so that the search can call it; what it returns is
    /// stated for a grid that keeps its invariant.
    pub fn is_committed_checked(&self, coord: Coordinate) -> (r: bool)
        ensures
            self.wf() ==> r == self.is_committed_spec(coord),
    {
        match self.grid.get(coord) {
            Some(cell) => cell.seq == self.seq,
            None => false,
        }
    }

    /// Whether the cell at `coord` is claimed this epoch.
    pub fn is_committed(&self, coord: Coordinate) -> (r: bool)
        requires
            self.wf(),
        ensures
            r == self.is_committed_spec(coord),
    {
        self.is_committed_checked(coord)
    }

    /// The claim on the cell at `coord`: the direction in which it will be
    /// entered and what for, or `None` where it is not claimed this epoch.
    pub fn get_checked(&self, coord: Coordinate) -> (r: Option<(CardinalDirection, CommitmentType)>)
        requires
            self.wf(),
        ensures
            r == self.get_spec(coord),
            r.is_some() == self.is_committed_spec(coord),
    {
        match self.grid.get(coord) {
            Some(cell) => {
                proof {
                    self.size_spec().lemma_index_in_range(coord);
                }
                if cell.seq == self.seq {
                    match cell.direction {
                        Some(d) => Some((d, cell.typ)),
                        None => None,
                    }
                } else {
                    None
                }
            },
            None => None,
        }
    }
}


/// Whether a walk of at most `n` steps in cardinal directions leads from
/// `(sx, sy)` to `(x, y)`, each step onto a cell inside the grid that is not
/// solid. The cell the walk starts on may be solid.
pub open spec fn reachable_within(
    size: GridSize,
    solid: Seq<bool>,
    sx: int,
    sy: int,
    x: int,
    y: int,
    n: nat,
) -> bool
    decreases n,
{
    ||| x == sx && y == sy
    ||| {
        &&& n > 0
        &&& 0 <= x < size.width
        &&& 0 <= y < size.height
        &&& !solid[y * size.width + x]
        &&& {
            ||| reachable_within(size, solid, sx, sy, x, y - 1, (n - 1) as nat)
            ||| reachable_within(size, solid, sx, sy, x + 1, y, (n - 1) as nat)
            ||| reachable_within(size, solid, sx, sy, x, y + 1, (n - 1) as nat)
            ||| reachable_within(size, solid, sx, sy, x - 1, y, (n - 1) as nat)
        }
    }
}

/// Whether `costs` holds, for each cell in row-major order, the length of
/// the shortest walk from `start` to it, and `None` where no walk leads there.
pub open spec fn is_distance_field(
    size: GridSize,
    solid: Seq<bool>,
    start: Coordinate,
    costs: Seq<Option<u32>>,
) -> bool {
    &&& costs.len() == size.area()
    &&& forall|i: int|
        0 <= i < costs.len() ==> {
            let c = size.coord_at(i);
            match #[trigger] costs[i] {
                Some(d) => reachable_within(
                    size,
                    solid,
                    start.x as int,
                    start.y as int,
                    c.x as int,
                    c.y as int,
                    d as nat,
                ) && (d > 0 ==> !reachable_within(
                    size,
                    solid,
                    start.x as int,
                    start.y as int,
                    c.x as int,
                    c.y as int,
                    (d - 1) as nat,
                )),
                None => forall|n: nat|
                    !reachable_within(
                        size,
                        solid,
                        start.x as int,
                        start.y as int,
                        c.x as int,
                        c.y as int,
                        n,
                    ),
            }
        }
}

/// The distance that a `grid_search::UniformDistanceMap` holds for each of
/// its cells, in row-major order: what its `cost` returns there.
pub uninterp spec fn distance_costs(
    map: grid_search::UniformDistanceMap<u32, direction::DirectionsCardinal>,
) -> Seq<Option<u32>>;

/// The size that a `grid_search::UniformDistanceMap` was made with.
pub uninterp spec fn distance_map_size(
    map: grid_search::UniformDistanceMap<u32, direction::DirectionsCardinal>,
) -> GridSize;

/// The size that a `grid_search::SearchContext` was made with.
pub uninterp spec fn search_size(search: grid_search::SearchContext<u32>) -> GridSize;

/// The path that `grid_search`'s bounded best-first search returns, each
/// step as the number that `direction::Direction` gives it (0 for north,
/// then clockwise by eighths of a turn): over a grid of `width` by `height`
/// cells of which `blocked` says in row-major order which are closed, from
/// `(x, y)`, which may itself be closed only where `allow_solid_start` is
/// set, at most `max_depth` steps deep, toward the least of `costs`. `None`
/// where the search fails.
///
/// The search goes on from the cell with the least distance first, meets
/// the neighbours of a cell in the order north, east, south, west, and
/// keeps of several cells with the least distance the one it met first:
/// that is what decides between steps that are equally good.
pub uninterp spec fn best_path(
    width: u32,
    height: u32,
    blocked: Seq<bool>,
    x: i32,
    y: i32,
    allow_solid_start: bool,
    max_depth: u32,
    costs: Seq<Option<u32>>,
) -> Option<Seq<u8>>;

/// The steps of a path, if there is one.
pub open spec fn steps_of(path: Option<Vec<u8>>) -> Option<Seq<u8>> {
    match path {
        Some(steps) => Some(steps@),
        None => None,
    }
}

/// Makes a search context with `grid_search::SearchContext::new`, which
/// builds a grid of `size`: the size is one that can be built.
#[verifier::external_body]
fn new_search_context(size: GridSize) -> (search: grid_search::SearchContext<u32>)
    requires
        size.buildable(),
    ensures
        search_size(search) == size,
{
    grid_search::SearchContext::new(coord_2d::Size::new(size.width, size.height))
}

/// Makes the queue of the breadth-first search with
/// `grid_search::BfsContext::new`, which builds a grid of `size`: the size
/// is one that can be built.
#[verifier::external_body]
fn new_bfs_context(size: GridSize) -> (bfs: grid_search::BfsContext)
    requires
        size.buildable(),
{
    grid_search::BfsContext::new(coord_2d::Size::new(size.width, size.height))
}

/// Makes a distance map with `grid_search::UniformDistanceMap::new`, which
/// builds a grid of `size`: the size is one that can be built. No cell of a
/// new map has a distance.
#[verifier::external_body]
fn new_distance_map(size: GridSize) -> (map: grid_search::UniformDistanceMap<
    u32,
    direction::DirectionsCardinal,
>)
    requires
        size.buildable(),
    ensures
        distance_map_size(map) == size,
        distance_costs(map).len() == size.area(),
        forall|i: int| 0 <= i < size.area() ==> (#[trigger] distance_costs(map)[i]).is_none(),
{
    grid_search::UniformDistanceMap::new(
        coord_2d::Size::new(size.width, size.height),
        direction::DirectionsCardinal,
    )
}

/// Reads one distance with `grid_search::UniformDistanceMap::cost`, which
/// returns `None` outside the map.
#[verifier::external_body]
fn distance_cost(
    map: &grid_search::UniformDistanceMap<u32, direction::DirectionsCardinal>,
    coord: Coordinate,
) -> (r: Option<u32>)
    ensures
        r == if distance_map_size(*map).contains_spec(coord) {
            distance_costs(*map)[distance_map_size(*map).index_of(coord)]
        } else {
            None
        },
{
    map.cost(coord_2d::Coord::new(coord.x, coord.y))
}

/// The terrain of a world as the breadth-first search asks for it: a cell
/// is closed where it is solid. The actors that stand on a cell do not close
/// it.
pub struct Solid<'a> {
    pub world: &'a World,
}

/// The world and the claims of the turn as an actor's search asks for
/// them: a cell is closed where it is solid, where an autonomous actor
/// stands, and where another actor has claimed it.
pub struct SolidOrOccupied<'a> {
    pub world: &'a World,
    pub commitment_grid: &'a CommitmentGrid,
}

impl<'a> grid_search::SolidGrid for Solid<'a> {
    /// What the search is told of the cell at `coord`: whether it is
    /// solid, and `None` outside the world.
    fn is_solid(&self, coord: coord_2d::Coord) -> (solid: Option<bool>)
        ensures
            forall|at: Coordinate|
                self.world.wf() && coord == #[trigger] outside_coord(at.x, at.y) ==> solid
                    == if self.world.size_spec().contains_spec(at) {
                    Some(self.world.solid_at(at))
                } else {
                    None
                },
    {
        self.world.solid_checked(coord_from_outside(coord))
    }
}

impl<'a> SolidOrOccupied<'a> {
    /// Whether the cell at `coord` is closed to an actor's search.
    pub open spec fn blocked_at(&self, coord: Coordinate) -> bool {
        ||| self.world.solid_at(coord)
        ||| self.world.cell_spec(coord).contains_npc_spec()
        ||| self.commitment_grid.is_committed_spec(coord)
    }

    /// Which cells are closed, in row-major order.
    pub open spec fn blocked_view(&self) -> Seq<bool> {
        Seq::new(
            self.world.size_spec().area() as nat,
            |i: int| self.blocked_at(self.world.size_spec().coord_at(i)),
        )
    }

    /// Whether the cell at `coord` is closed, and `None` outside the world.
    pub fn blocked(&self, coord: Coordinate) -> (r: Option<bool>)
        ensures
            self.world.wf() && self.commitment_grid.wf() ==> r == if self.world.size_spec(
            ).contains_spec(coord) {
                Some(self.blocked_at(coord))
            } else {
                None
            },
    {
        match self.world.occupied_checked(coord) {
            Some(occupied) => Some(occupied || self.commitment_grid.is_committed_checked(coord)),
            None => None,
        }
    }
}

impl<'a> grid_search::SolidGrid for SolidOrOccupied<'a> {
    /// What the search is told of the cell at `coord`: whether it is
    /// closed, and `None` outside the world.
    fn is_solid(&self, coord: coord_2d::Coord) -> (closed: Option<bool>)
        ensures
            forall|at: Coordinate|
                self.world.wf() && self.commitment_grid.wf() && coord == #[trigger] outside_coord(
                    at.x,
                    at.y,
                ) ==> closed == if self.world.size_spec().contains_spec(at) {
                    Some(self.blocked_at(at))
                } else {
                    None
                },
    {
        self.blocked(coord_from_outside(coord))
    }
}

/// Fills `map` with `grid_search::BfsContext::populate_uniform_distance_map`:
/// a breadth-first search from `start` over the cells of `world` that are
/// not solid, stepping in the four cardinal directions. With `start` inside
/// the world and a map of the world's size the search succeeds, and the map
/// then holds the length of the shortest walk to each cell it reached and
/// nothing for the others.
#[verifier::external_body]
fn populate_distances(
    bfs: &mut grid_search::BfsContext,
    world: &World,
    start: Coordinate,
    map: &mut grid_search::UniformDistanceMap<u32, direction::DirectionsCardinal>,
) -> (ok: bool)
    requires
        world.wf(),
        world.size_spec().contains_spec(start),
        distance_map_size(*old(map)) == world.size_spec(),
    ensures
        ok,
        distance_map_size(*final(map)) == distance_map_size(*old(map)),
        is_distance_field(
            world.size_spec(),
            world.solid_view(),
            start,
            distance_costs(*final(map)),
        ),
{
    bfs.populate_uniform_distance_map(
        &Solid { world },
        coord_2d::Coord::new(start.x, start.y),
        Default::default(),
        map,
    ).is_ok()
}

/// The cardinal direction that has the number `index` among the eight
/// directions, which are counted from north clockwise by eighths of a turn.
pub open spec fn cardinal_of(index: u8) -> Option<CardinalDirection> {
    if index == 0 {
        Some(CardinalDirection::North)
    } else if index == 2 {
        Some(CardinalDirection::East)
    } else if index == 4 {
        Some(CardinalDirection::South)
    } else if index == 6 {
        Some(CardinalDirection::West)
    } else {
        None
    }
}

/// The first step of `path`, where it has one and that step goes along a
/// row or a column.
pub open spec fn first_step(path: Option<Seq<u8>>) -> Option<CardinalDirection> {
    match path {
        Some(steps) => if steps.len() > 0 {
            cardinal_of(steps[0])
        } else {
            None
        },
        None => None,
    }
}

/// The first step of `path`, where it has one and that step goes along a
/// row or a column.
pub fn first_step_of(path: &Option<Vec<u8>>) -> (r: Option<CardinalDirection>)
    ensures
        r == first_step(steps_of(*path)),
{
    match path {
        Some(steps) => {
            if steps.len() == 0 {
                None
            } else {
                let index: u8 = steps[0];
                if index == 0 {
                    Some(CardinalDirection::North)
                } else if index == 2 {
                    Some(CardinalDirection::East)
                } else if index == 4 {
                    Some(CardinalDirection::South)
                } else if index == 6 {
                    Some(CardinalDirection::West)
                } else {
                    None
                }
            }
        },
        None => None,
    }
}

/// Whether the direction with the number `step` is cardinal and leads from `start`
/// onto a cell inside the world of `grid` that is not closed and has a
/// distance among `costs`.
pub open spec fn leads_onward(
    grid: &SolidOrOccupied,
    costs: Seq<Option<u32>>,
    start: Coordinate,
    step: u8,
) -> bool {
    match cardinal_of(step) {
        Some(direction) => match start.step_spec(direction) {
            Some(to) => {
                &&& grid.world.size_spec().contains_spec(to)
                &&& !grid.blocked_at(to)
                &&& costs[grid.world.size_spec().index_of(to)].is_some()
            },
            None => false,
        },
        None => false,
    }
}

/// Runs `grid_search::SearchContext::best_search_uniform_distance_map` from
/// `start`, at most `max_depth` steps deep, and returns the path it found,
/// each step as the number that `direction::Direction` gives it, or `None`
/// where the search fails. The contract gives the path its name, and states
/// of its first step what the search guarantees of every step it records:
/// it leads onto a cell inside the grid that is not closed and has a
/// distance. The depth is below 2^31: the search adds what is left of it to
/// a distance of the map, which is below the number of cells, in a `u32`.
#[verifier::external_body]
fn best_search(
    search: &mut grid_search::SearchContext<u32>,
    grid: &SolidOrOccupied,
    start: Coordinate,
    allow_solid_start: bool,
    max_depth: u32,
    map: &grid_search::UniformDistanceMap<u32, direction::DirectionsCardinal>,
) -> (path: Option<Vec<u8>>)
    requires
        grid.world.wf(),
        grid.commitment_grid.wf(),
        grid.world.size_spec().contains_spec(start),
        search_size(*old(search)) == grid.world.size_spec(),
        distance_map_size(*map) == grid.world.size_spec(),
        max_depth <= 0x7fff_ffff,
    ensures
        search_size(*final(search)) == search_size(*old(search)),
        steps_of(path) == best_path(
            grid.world.size_spec().width,
            grid.world.size_spec().height,
            grid.blocked_view(),
            start.x,
            start.y,
            allow_solid_start,
            max_depth,
            distance_costs(*map),
        ),
        path.is_some() && path.unwrap()@.len() > 0 ==> leads_onward(
            grid,
            distance_costs(*map),
            start,
            path.unwrap()@[0],
        ),
{
    let mut path = Vec::new();
    let config = grid_search::SearchConfig { allow_solid_start };
    let from = coord_2d::Coord::new(start.x, start.y);
    match search.best_search_uniform_distance_map(grid, from, config, max_depth, map, &mut path) {
        Ok(_) => Some(path.iter().map(|d| *d as u8).collect()),
        Err(_) => None,
    }
}

/// The pathfinding state of one level.
pub struct PathfindingContext {
    search: grid_search::SearchContext<u32>,
    bfs: grid_search::BfsContext,
    distance_to_player: grid_search::UniformDistanceMap<u32, direction::DirectionsCardinal>,
    commitment_grid: CommitmentGrid,
    player_coord: Coordinate,
    committed_actions: Vec<CommittedAction>,
}

impl PathfindingContext {
    pub closed spec fn size_spec(&self) -> GridSize {
        self.commitment_grid.size_spec()
    }

    /// The claims of the turn.
    pub closed spec fn commitments_spec(&self) -> CommitmentGrid {
        self.commitment_grid
    }

    /// The distance to the player of each cell, in row-major order, as the
    /// last recomputation left it.
    pub closed spec fn distances_spec(&self) -> Seq<Option<u32>> {
        distance_costs(self.distance_to_player)
    }

    /// Where the player stood at the last recomputation.
    pub closed spec fn player_coord_spec(&self) -> Coordinate {
        self.player_coord
    }

    /// What the actors have committed to this turn, in the order in which
    /// they did.
    pub closed spec fn committed_actions_spec(&self) -> Seq<CommittedAction> {
        self.committed_actions@
    }

    pub closed spec fn sizes_agree(&self) -> bool {
        &&& search_size(self.search) == self.commitment_grid.size_spec()
        &&& distance_map_size(self.distance_to_player) == self.commitment_grid.size_spec()
    }

    /// The context's invariant: the reservation grid keeps its own, and the
    /// distance field and the search's memory have its size.
    pub open spec fn wf(&self) -> bool {
        &&& self.commitments_spec().wf()
        &&& self.sizes_agree()
        &&& self.distances_spec().len() == self.size_spec().area()
    }

    /// The distance to the player of the cell at `coord`, and `None` where
    /// no walk leads from the player to it or it lies outside the grid.
    pub open spec fn distance_spec(&self, coord: Coordinate) -> Option<u32> {
        if self.size_spec().contains_spec(coord) {
            self.distances_spec()[self.size_spec().index_of(coord)]
        } else {
            None
        }
    }

    /// The world and this turn's claims, as an actor's search sees them.
    pub open spec fn obstacles(&self, world: &World) -> SolidOrOccupied {
        SolidOrOccupied { world, commitment_grid: &self.commitments_spec() }
    }

    /// The step that the bounded search from `coord` takes toward the
    /// player, if it finds one.
    pub open spec fn step_towards_player(&self, coord: Coordinate, world: &World) -> Option<
        CardinalDirection,
    > {
        if world.size_spec().contains_spec(coord) {
            first_step(
                best_path(
                    world.size_spec().width,
                    world.size_spec().height,
                    self.obstacles(world).blocked_view(),
                    coord.x,
                    coord.y,
                    true,
                    MAX_DEPTH,
                    self.distances_spec(),
                ),
            )
        } else {
            None
        }
    }

    /// Whether this context is `before` after the start of the actors'
    /// turn with the player at `player_coord`: the distances are those to
    /// the player, or as they were where the player stands outside the
    /// world; nothing is claimed and nothing committed.
    pub open spec fn recomputed(
        &self,
        before: &PathfindingContext,
        player_coord: Coordinate,
        world: &World,
    ) -> bool {
        &&& self.size_spec() == before.size_spec()
        &&& self.player_coord_spec() == player_coord
        &&& self.committed_actions_spec() == Seq::<CommittedAction>::empty()
        &&& self.commitments_spec().epoch_spec() == before.commitments_spec().epoch_spec() + 1
        &&& self.commitments_spec().cells_spec() == before.commitments_spec().cells_spec()
        &&& forall|c: Coordinate| !self.commitments_spec().is_committed_spec(c)
        &&& if world.size_spec().contains_spec(player_coord) {
            is_distance_field(
                world.size_spec(),
                world.solid_view(),
                player_coord,
                self.distances_spec(),
            )
        } else {
            self.distances_spec() == before.distances_spec()
        }
    }

    /// Whether this context is `before` after the actor `id` of `world` has
    /// committed to its step toward the player, if it has one: the step is
    /// never onto a cell that is closed or has no distance, it joins the
    /// list of committed actions, and the cell it leads to is claimed,
    /// unless that is the player's.
    pub open spec fn committed(
        &self,
        before: &PathfindingContext,
        id: EntityId,
        world: &World,
        typ: CommitmentType,
    ) -> bool {
        &&& self.size_spec() == before.size_spec()
        &&& self.player_coord_spec() == before.player_coord_spec()
        &&& self.distances_spec() == before.distances_spec()
        &&& match before.step_towards_player(world.entity_spec(id).unwrap().coord, world) {
            None => {
                &&& self.committed_actions_spec() == before.committed_actions_spec()
                &&& self.commitments_spec() == before.commitments_spec()
            },
            Some(d) => {
                let from = world.entity_spec(id).unwrap().coord;
                let to = from.step_spec(d).unwrap();
                &&& from.step_spec(d).is_some()
                &&& world.size_spec().contains_spec(to)
                &&& !before.obstacles(world).blocked_at(to)
                &&& before.distance_spec(to).is_some()
                &&& self.committed_actions_spec() == before.committed_actions_spec().push(
                    (id, d, typ),
                )
                &&& if to == before.player_coord_spec() {
                    self.commitments_spec() == before.commitments_spec()
                } else {
                    self.commitments_spec().claimed(&before.commitments_spec(), to, d, typ)
                }
            },
        }
    }

    /// Whether this context is `before` after the actor `id`, which stands
    /// at `from`, has committed to `step`, if that is one: the step joins
    /// the list of committed actions, and the cell it leads to is claimed,
    /// unless that is the player's or lies outside the grid. Without a step
    /// nothing has changed.
    pub open spec fn step_committed(
        &self,
        before: &PathfindingContext,
        id: EntityId,
        from: Coordinate,
        step: Option<CardinalDirection>,
        typ: CommitmentType,
    ) -> bool {
        &&& self.size_spec() == before.size_spec()
        &&& self.player_coord_spec() == before.player_coord_spec()
        &&& self.distances_spec() == before.distances_spec()
        &&& match step {
            None => {
                &&& self.committed_actions_spec() == before.committed_actions_spec()
                &&& self.commitments_spec() == before.commitments_spec()
            },
            Some(d) => {
                let to = from.step_spec(d).unwrap();
                &&& self.committed_actions_spec() == before.committed_actions_spec().push(
                    (id, d, typ),
                )
                &&& if to == before.player_coord_spec() || !before.size_spec().contains_spec(to) {
                    self.commitments_spec() == before.commitments_spec()
                } else {
                    self.commitments_spec().claimed(&before.commitments_spec(), to, d, typ)
                }
            },
        }
    }

    /// Whether this is a context for a level of `size` in which the player
    /// stands at the origin, no distance is known, nothing is claimed and
    /// nothing committed.
    pub open spec fn is_new(&self, size: GridSize) -> bool {
        &&& self.size_spec() == size
        &&& self.player_coord_spec() == (Coordinate { x: 0, y: 0 })
        &&& self.committed_actions_spec() == Seq::<CommittedAction>::empty()
        &&& self.commitments_spec().epoch_spec() == 1
        &&& forall|c: Coordinate| !self.commitments_spec().is_committed_spec(c)
        &&& forall|c: Coordinate| self.distance_spec(c).is_none()
    }

    /// A context for a level of `size`: the player at the origin, no
    /// distance known, nothing claimed and nothing committed.
    pub fn new(size: GridSize) -> (context: PathfindingContext)
        requires
            size.buildable(),
        ensures
            context.wf(),
            context.is_new(size),
    {
        let context = PathfindingContext {
            player_coord: Coordinate { x: 0, y: 0 },
            search: new_search_context(size),
            bfs: new_bfs_context(size),
            commitment_grid: CommitmentGrid::new(size),
            distance_to_player: new_distance_map(size),
            committed_actions: Vec::new(),
        };
        proof {
            assert forall|c: Coordinate| context.distance_spec(c).is_none() by {
                if size.contains_spec(c) {
                    size.lemma_index_in_range(c);
                }
            }
        }
        context
    }

    /// Where the player stood at the last recomputation.
    pub fn player_coord(&self) -> (r: Coordinate)
        ensures
            r == self.player_coord_spec(),
    {
        self.player_coord
    }

    pub fn size(&self) -> (r: GridSize)
        ensures
            r == self.size_spec(),
    {
        self.commitment_grid.size()
    }

    pub fn commitment_grid(&self) -> (r: &CommitmentGrid)
        ensures
            *r == self.commitments_spec(),
    {
        &self.commitment_grid
    }

    /// What the actors have committed to this turn, in the order in which
    /// they did.
    pub fn committed_actions(&self) -> (r: &Vec<CommittedAction>)
        ensures
            r@ == self.committed_actions_spec(),
    {
        &self.committed_actions
    }

    /// The distance to the player of the cell at `coord`.
    pub fn distance_to_player(&self, coord: Coordinate) -> (r: Option<u32>)
        requires
            self.wf(),
        ensures
            r == self.distance_spec(coord),
    {
        distance_cost(&self.distance_to_player, coord)
    }

    /// Starts the actors' turn: recomputes the distance of every cell to
    /// `player_coord` over the terrain of `world`, releases every claim and
    /// empties the list of committed actions. Where `player_coord` lies
    /// outside the world the distances stay as they were.
    pub fn update_player_coord(&mut self, player_coord: Coordinate, world: &World)
        requires
            old(self).wf(),
            world.wf(),
            world.size_spec() == old(self).size_spec(),
            old(self).commitments_spec().epoch_spec() < u64::MAX,
        ensures
            final(self).wf(),
            final(self).recomputed(old(self), player_coord, world),
    {
        if world.size().contains(player_coord) {
            let _ = populate_distances(
                &mut self.bfs,
                world,
                player_coord,
                &mut self.distance_to_player,
            );
        }
        self.player_coord = player_coord;
        self.commitment_grid.clear();
        self.committed_actions.clear();
    }

    /// Releases every claim, and keeps the list of committed actions.
    pub fn clear_commitments(&mut self)
        requires
            old(self).wf(),
            old(self).commitments_spec().epoch_spec() < u64::MAX,
        ensures
            final(self).wf(),
            final(self).size_spec() == old(self).size_spec(),
            final(self).player_coord_spec() == old(self).player_coord_spec(),
            final(self).committed_actions_spec() == old(self).committed_actions_spec(),
            final(self).distances_spec() == old(self).distances_spec(),
            final(self).commitments_spec().epoch_spec() == old(self).commitments_spec().epoch_spec()
                + 1,
            forall|c: Coordinate| !final(self).commitments_spec().is_committed_spec(c),
    {
        self.commitment_grid.clear();
    }

    /// The step an actor at `coord` takes toward the player: the first step
    /// of a search at most [`MAX_DEPTH`] steps deep for the cell nearest to
    /// the player, through cells that are not solid, not held by another
    /// actor and not claimed this turn. `None` where the search finds no
    /// better cell than the actor's own, or no way at all. Which of several
    /// steps that are equally good is taken is the search's own choice: see
    /// [`best_path`].
    pub fn direction_towards_player(&mut self, coord: Coordinate, world: &World) -> (r: Option<
        CardinalDirection,
    >)
        requires
            old(self).wf(),
            world.wf(),
            world.size_spec() == old(self).size_spec(),
        ensures
            final(self).wf(),
            final(self).size_spec() == old(self).size_spec(),
            final(self).commitments_spec() == old(self).commitments_spec(),
            final(self).player_coord_spec() == old(self).player_coord_spec(),
            final(self).committed_actions_spec() == old(self).committed_actions_spec(),
            final(self).distances_spec() == old(self).distances_spec(),
            r == old(self).step_towards_player(coord, world),
            r.is_some() ==> {
                &&& coord.step_spec(r.unwrap()).is_some()
                &&& world.size_spec().contains_spec(coord.step_spec(r.unwrap()).unwrap())
                &&& !old(self).obstacles(world).blocked_at(coord.step_spec(r.unwrap()).unwrap())
                &&& old(self).distance_spec(coord.step_spec(r.unwrap()).unwrap()).is_some()
            },
    {
        if !world.size().contains(coord) {
            return None;
        }
        let grid = SolidOrOccupied { world, commitment_grid: &self.commitment_grid };
        let path = best_search(
            &mut self.search,
            &grid,
            coord,
            true,
            MAX_DEPTH,
            &self.distance_to_player,
        );
        first_step_of(&path)
    }

    /// Lets the actor `id`, which stands at `from`, commit to `step`, if
    /// that is one: the step joins the list of committed actions, and the
    /// cell it leads to is claimed for the actor, unless that is the
    /// player's own cell. Without a step nothing changes.
    pub fn commit_step(
        &mut self,
        id: EntityId,
        from: Coordinate,
        step: Option<CardinalDirection>,
        typ: CommitmentType,
    )
        requires
            old(self).wf(),
            step.is_some() ==> from.step_spec(step.unwrap()).is_some(),
        ensures
            final(self).wf(),
            final(self).step_committed(old(self), id, from, step, typ),
    {
        match step {
            Some(direction) => {
                let next_coord = from.step(direction).unwrap();
                if next_coord != self.player_coord {
                    self.commitment_grid.commit(next_coord, direction, typ);
                }
                self.committed_actions.push((id, direction, typ));
            },
            None => {},
        }
    }

    /// Lets the actor `id` commit to its step toward the player, if it has
    /// one. The cell it will enter is claimed for it, unless that is the
    /// player's own cell: stepping there is an attack, which any number of
    /// actors may make. An actor without a step commits to nothing.
    ///
    /// No claim that stood before is changed: the search never steps onto
    /// a claimed cell, so of two actors that want the same cell the first
    /// has it.
    pub fn commit_action(&mut self, id: EntityId, world: &World, typ: CommitmentType)
        requires
            old(self).wf(),
            world.wf(),
            world.size_spec() == old(self).size_spec(),
            world.entity_spec(id).is_some(),
        ensures
            final(self).wf(),
            final(self).committed(old(self), id, world, typ),
            forall|c: Coordinate|
                old(self).commitments_spec().is_committed_spec(c)
                    ==> final(self).commitments_spec().get_spec(c)
                    == old(self).commitments_spec().get_spec(c),
    {
        let coord = world.entity(id).unwrap().coord;
        let step = self.direction_towards_player(coord, world);
        self.commit_step(id, coord, step, typ);
    }
}

/// A walk that is short enough is short enough for every greater bound.
pub proof fn lemma_reachable_monotone(
    size: GridSize,
    solid: Seq<bool>,
    sx: int,
    sy: int,
    x: int,
    y: int,
    n: nat,
    m: nat,
)
    requires
        reachable_within(size, solid, sx, sy, x, y, n),
        n <= m,
    ensures
        reachable_within(size, solid, sx, sy, x, y, m),
    decreases n,
{
    if !(x == sx && y == sy) {
        let k = (n - 1) as nat;
        let l = (m - 1) as nat;
        if reachable_within(size, solid, sx, sy, x, y - 1, k) {
            lemma_reachable_monotone(size, solid, sx, sy, x, y - 1, k, l);
        } else if reachable_within(size, solid, sx, sy, x + 1, y, k) {
            lemma_reachable_monotone(size, solid, sx, sy, x + 1, y, k, l);
        } else if reachable_within(size, solid, sx, sy, x, y + 1, k) {
            lemma_reachable_monotone(size, solid, sx, sy, x, y + 1, k, l);
        } else {
            lemma_reachable_monotone(size, solid, sx, sy, x - 1, y, k, l);
        }
    }
}

/// In a distance field, a cell that no walk from the start reaches has no
/// distance, and a cell that has none is reached by no walk.
pub proof fn lemma_unreachable_has_no_distance(
    size: GridSize,
    solid: Seq<bool>,
    start: Coordinate,
    costs: Seq<Option<u32>>,
    c: Coordinate,
)
    requires
        size.valid(),
        size.contains_spec(c),
        is_distance_field(size, solid, start, costs),
    ensures
        costs[size.index_of(c)].is_none() == (forall|n: nat|
            !reachable_within(
                size,
                solid,
                start.x as int,
                start.y as int,
                c.x as int,
                c.y as int,
                n,
            )),
{
    size.lemma_index_in_range(c);
    let i = size.index_of(c);
    assert(size.coord_at(i) == c);
    match costs[i] {
        Some(d) => {
            assert(reachable_within(
                size,
                solid,
                start.x as int,
                start.y as int,
                c.x as int,
                c.y as int,
                d as nat,
            ));
        },
        None => {},
    }
}

/// After the distances were recomputed for a player inside the world, a
/// cell has no distance exactly where no walk over cells that are not solid
/// leads from the player to it, however the world is cut up by walls.
pub proof fn lemma_recomputed_unreachable_has_no_distance(
    before: &PathfindingContext,
    after: &PathfindingContext,
    player_coord: Coordinate,
    world: &World,
    c: Coordinate,
)
    requires
        world.wf(),
        world.size_spec() == before.size_spec(),
        after.recomputed(before, player_coord, world),
        world.size_spec().contains_spec(player_coord),
        world.size_spec().contains_spec(c),
    ensures
        after.distance_spec(c).is_none() == (forall|n: nat|
            !reachable_within(
                world.size_spec(),
                world.solid_view(),
                player_coord.x as int,
                player_coord.y as int,
                c.x as int,
                c.y as int,
                n,
            )),
{
    lemma_unreachable_has_no_distance(
        world.size_spec(),
        world.solid_view(),
        player_coord,
        after.distances_spec(),
        c,
    );
}

/// In a distance field, the distance of a cell is the length of the
/// shortest walk to it: no walk of fewer steps reaches it.
pub proof fn lemma_distance_is_shortest(
    size: GridSize,
    solid: Seq<bool>,
    start: Coordinate,
    costs: Seq<Option<u32>>,
    c: Coordinate,
    n: nat,
)
    requires
        size.valid(),
        size.contains_spec(c),
        is_distance_field(size, solid, start, costs),
        costs[size.index_of(c)].is_some(),
    ensures
        reachable_within(size, solid, start.x as int, start.y as int, c.x as int, c.y as int, n)
            == (n >= costs[size.index_of(c)].unwrap()),
{
    size.lemma_index_in_range(c);
    let i = size.index_of(c);
    assert(size.coord_at(i) == c);
    let d = costs[i].unwrap();
    if n >= d {
        lemma_reachable_monotone(
            size,
            solid,
            start.x as int,
            start.y as int,
            c.x as int,
            c.y as int,
            d as nat,
            n,
        );
    } else if reachable_within(
        size,
        solid,
        start.x as int,
        start.y as int,
        c.x as int,
        c.y as int,
        n,
    ) {
        lemma_reachable_monotone(
            size,
            solid,
            start.x as int,
            start.y as int,
            c.x as int,
            c.y as int,
            n,
            (d - 1) as nat,
        );
    }
}

} // verus!
