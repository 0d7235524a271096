//! The visibility and lighting field: what the player sees this tick, what
//! was ever seen, and how each visible cell is lit.
//!
//! Nothing is cleared between ticks. Each cell carries the epoch at which it
//! was last seen and last lit, and a cell is stale as soon as the field's
//! epoch has moved on.

use vstd::prelude::*;
use crate::colour::Rgb24;
use crate::entity::{Light, LightId};
use crate::geometry::{Coordinate, DirectionBitmap, GridSize};
use crate::outside::{coord_from_outside, outside_coord, outside_size, size_to_outside};
use crate::world::World;

verus! {

/// The square of the distance the player sees.
pub const VISION_DISTANCE_SQUARED: u32 = 60;

/// What the field keeps of one cell.
#[derive(Clone, Copy, Debug, PartialEq, Eq, Structural)]
pub struct VisibilityCell {
    pub last_seen: u64,
    pub last_lit: u64,
    pub visible_directions: DirectionBitmap,
    pub light_colour: Rgb24,
}

/// The epoch of the field at the moment a reader asked for it.
#[derive(Clone, Copy, Debug, PartialEq, Eq, Structural)]
pub struct VisibilityState {
    pub count: u64,
}

/// One cell that a sweep reports: where it is, from which directions the
/// sweep reached it, and how much visibility was left on the way.
#[derive(Clone, Copy, Debug, PartialEq, Eq, Structural)]
pub struct VisibleCell {
    pub coord: Coordinate,
    pub directions: DirectionBitmap,
    pub visibility: u8,
}

/// The cells of a visibility field, held in a `grid_2d::Grid`. What the grid is
/// inside is `grid_2d`'s affair: all that is known of it here is what the
/// functions below say.
#[verifier::external_body]
pub struct VisibilityGrid {
    grid: grid_2d::Grid<VisibilityCell>,
}

/// What the grid holds, in row-major order: for each coordinate inside it,
/// what its `get` returns there.
pub uninterp spec fn visibility_cells(grid: VisibilityGrid) -> Seq<VisibilityCell>;

/// The size that the grid was made with: what its `size` returns.
pub uninterp spec fn visibility_grid_size(grid: VisibilityGrid) -> GridSize;

impl VisibilityGrid {
    /// The cells in row-major order.
    pub open spec fn cells(&self) -> Seq<VisibilityCell> {
        visibility_cells(*self)
    }

    pub open spec fn size_spec(&self) -> GridSize {
        visibility_grid_size(*self)
    }

    /// The size is admissible and there is one cell for each coordinate.
    pub open spec fn wf(&self) -> bool {
        &&& self.size_spec().valid()
        &&& self.cells().len() == self.size_spec().area()
    }

    /// The cell at `coord`, which lies inside the grid.
    pub open spec fn at(&self, coord: Coordinate) -> VisibilityCell {
        self.cells()[self.size_spec().index_of(coord)]
    }

    /// Makes a grid of `size` with `grid_2d::Grid::new_clone`: every cell
    /// is `value`. The size is one that can be built: on a size with rows
    /// but no columns the crate's walk over the cells does not end.
    #[verifier::external_body]
    fn new_copy(size: GridSize, value: VisibilityCell) -> (g: VisibilityGrid)
        requires
            size.buildable(),
        ensures
            visibility_grid_size(g) == size,
            visibility_cells(g).len() == size.area(),
            forall|i: int| 0 <= i < size.area() ==> visibility_cells(g)[i] == value,
    {
        let size = coord_2d::Size::new(size.width, size.height);
        VisibilityGrid { grid: grid_2d::Grid::new_clone(size, value) }
    }

    /// Reads the size with `grid_2d::Grid::size`.
    #[verifier::external_body]
    fn size(&self) -> (s: GridSize)
        ensures
            s == visibility_grid_size(*self),
    {
        GridSize { width: self.grid.width(), height: self.grid.height() }
    }

    /// Reads one cell with `grid_2d::Grid::get`, which returns `None`
    /// outside the grid.
    #[verifier::external_body]
    fn get(&self, coord: Coordinate) -> (r: Option<&VisibilityCell>)
        ensures
            r.is_some() == visibility_grid_size(*self).contains_spec(coord),
            r.is_some() ==> *r.unwrap()
                == visibility_cells(*self)[visibility_grid_size(*self).index_of(coord)],
    {
        self.grid.get(coord_2d::Coord::new(coord.x, coord.y))
    }

    /// Replaces one cell through `grid_2d::Grid::get_checked_mut`, which
    /// takes every coordinate inside the grid.
    #[verifier::external_body]
    fn set(&mut self, coord: Coordinate, value: VisibilityCell)
        requires
            visibility_grid_size(*old(self)).contains_spec(coord),
        ensures
            visibility_grid_size(*final(self)) == visibility_grid_size(*old(self)),
            visibility_cells(*final(self)) == visibility_cells(*old(self)).update(
                visibility_grid_size(*old(self)).index_of(coord),
                value,
            ),
    {
        *self.grid.get_checked_mut(coord_2d::Coord::new(coord.x, coord.y)) = value;
    }
}

/// The visibility and lighting field of one level.
pub struct VisibileArea {
    grid: VisibilityGrid,
    count: u64,
    shadowcast: shadowcast::Context<u8>,
}

/// The cell after a sweep of the player's at `epoch` reached it from `directions`.
pub open spec fn seen_cell(cell: VisibilityCell, epoch: u64, directions: DirectionBitmap)
    -> VisibilityCell {
    VisibilityCell { last_seen: epoch, visible_directions: directions, ..cell }
}

/// The cells after the player's sweep at `epoch`: each reported cell inside
/// the grid is marked as seen, a later report overwriting an earlier one.
pub open spec fn mark_seen(
    cells: Seq<VisibilityCell>,
    size: GridSize,
    epoch: u64,
    sweep: Seq<VisibleCell>,
) -> Seq<VisibilityCell>
    decreases sweep.len(),
{
    if sweep.len() == 0 {
        cells
    } else {
        let before = mark_seen(cells, size, epoch, sweep.drop_last());
        let v = sweep.last();
        if size.contains_spec(v.coord) {
            let i = size.index_of(v.coord);
            before.update(i, seen_cell(before[i], epoch, v.directions))
        } else {
            before
        }
    }
}

/// The cell after a light's sweep at `epoch` reached it from `directions`
/// with `colour`. The light counts only where the player sees the cell this
/// epoch from a direction that the light's sweep shares; the first light of
/// an epoch starts from black, the others add to it.
pub open spec fn lit_cell(
    cell: VisibilityCell,
    epoch: u64,
    directions: DirectionBitmap,
    colour: Rgb24,
) -> VisibilityCell {
    if cell.last_seen == epoch && directions.overlaps(cell.visible_directions) {
        let base = if cell.last_lit == epoch {
            cell.light_colour
        } else {
            Rgb24::black_spec()
        };
        VisibilityCell { last_lit: epoch, light_colour: base.saturating_add_spec(colour), ..cell }
    } else {
        cell
    }
}

/// The cells after the sweep of `light` at `epoch`.
pub open spec fn shine(
    cells: Seq<VisibilityCell>,
    size: GridSize,
    epoch: u64,
    light: Light,
    sweep: Seq<VisibleCell>,
) -> Seq<VisibilityCell>
    decreases sweep.len(),
{
    if sweep.len() == 0 {
        cells
    } else {
        let before = shine(cells, size, epoch, light, sweep.drop_last());
        let v = sweep.last();
        if size.contains_spec(v.coord) {
            let i = size.index_of(v.coord);
            before.update(
                i,
                lit_cell(before[i], epoch, v.directions, light.colour_at_coord_spec(v.coord)),
            )
        } else {
            before
        }
    }
}

/// What a sweep over the opacities of a grid reports: the result of
/// `shadowcast`'s recursive shadowcasting from `(x, y)`, which lies inside
/// the grid, out to the circle of `range_squared`, starting with a
/// visibility of `initial_visibility`, in the order in which it reports.
pub uninterp spec fn shadowcast_visible(
    width: u32,
    height: u32,
    opacity: Seq<u8>,
    x: i32,
    y: i32,
    range_squared: u32,
    initial_visibility: u8,
) -> Seq<VisibleCell>;

/// The visibility with which every sweep starts at its origin.
pub const FULL_VISIBILITY: u8 = 255;

/// What a sweep of `world` from `origin` reports, and nothing where
/// `origin` lies outside the world.
pub open spec fn sweep_of(world: &World, origin: Coordinate, range_squared: u32)
    -> Seq<VisibleCell> {
    if world.size_spec().contains_spec(origin) {
        shadowcast_visible(
            world.size_spec().width,
            world.size_spec().height,
            world.opacity_view(),
            origin.x,
            origin.y,
            range_squared,
            FULL_VISIBILITY,
        )
    } else {
        Seq::empty()
    }
}

/// The cells after the sweeps of all of `lights`, in their order.
pub open spec fn shine_all(
    cells: Seq<VisibilityCell>,
    size: GridSize,
    epoch: u64,
    lights: Seq<(LightId, Light)>,
    world: &World,
) -> Seq<VisibilityCell>
    decreases lights.len(),
{
    if lights.len() == 0 {
        cells
    } else {
        let light = lights.last().1;
        shine(
            shine_all(cells, size, epoch, lights.drop_last(), world),
            size,
            epoch,
            light,
            sweep_of(world, light.coord, light.range_squared),
        )
    }
}

/// No cell is stamped with an epoch that the field has not reached, and a
/// cell is lit no later than it was seen.
pub open spec fn stamps_within(cells: Seq<VisibilityCell>, epoch: u64) -> bool {
    forall|i: int|
        0 <= i < cells.len() ==> (#[trigger] cells[i]).last_lit <= cells[i].last_seen <= epoch
}

/// Each cell of `after` was last seen when that cell of `before` was, and
/// from the same directions.
pub open spec fn sight_kept(before: Seq<VisibilityCell>, after: Seq<VisibilityCell>) -> bool {
    &&& after.len() == before.len()
    &&& forall|i: int|
        0 <= i < before.len() ==> (#[trigger] after[i]).last_seen == before[i].last_seen
            && after[i].visible_directions == before[i].visible_directions
}

/// Each cell of `after` was last seen when that cell of `before` was, or at `epoch`.
pub open spec fn seen_then_or_now(
    before: Seq<VisibilityCell>,
    after: Seq<VisibilityCell>,
    epoch: u64,
) -> bool {
    &&& after.len() == before.len()
    &&& forall|i: int|
        0 <= i < before.len() ==> (#[trigger] after[i]).last_seen == before[i].last_seen
            || after[i].last_seen == epoch
}

/// The opacities of a world, as the sweep asks for them.
pub struct WorldOpacity;

impl shadowcast::InputGrid for WorldOpacity {
    type Grid = World;

    type Opacity = u8;

    /// The size of the world, as the sweep asks for it: that of a world
    /// whose size is admissible, and an empty one else.
    fn size(&self, world: &World) -> (size: coord_2d::Size)
        ensures
            size == if world.size_spec().valid() {
                outside_size(world.size_spec().width, world.size_spec().height)
            } else {
                outside_size(0, 0)
            },
    {
        let size = world.size();
        if size.is_valid() {
            size_to_outside(size)
        } else {
            size_to_outside(GridSize { width: 0, height: 0 })
        }
    }

    /// The opacity of the cell at `coord`, as the sweep asks for it: that
    /// of the cell inside the world, and 255 outside it.
    fn get_opacity(&self, world: &World, coord: coord_2d::Coord) -> (opacity: u8)
        ensures
            forall|at: Coordinate|
                world.wf() && coord == #[trigger] outside_coord(at.x, at.y) ==> opacity
                    == if world.size_spec().contains_spec(at) {
                    world.opacity_at(at)
                } else {
                    255u8
                },
    {
        world.opacity_checked(coord_from_outside(coord))
    }
}

/// Makes the working memory of a sweep with `shadowcast::Context::default`.
#[verifier::external_body]
fn new_sweep_context() -> (context: shadowcast::Context<u8>) {
    shadowcast::Context::default()
}

/// Runs `shadowcast::Context::for_each_visible` over the opacities of
/// `world`, from `origin` out to the circle of `range_squared`, starting
/// with `initial_visibility`, and collects what it reports, in its order.
/// The contract gives that sequence its name, and states the one thing the
/// sweep does before it looks at any opacity: it reports the origin, from
/// all directions and with the initial visibility. The working memory is
/// empty between sweeps, so that nothing of the result depends on it.
#[verifier::external_body]
fn sweep(
    context: &mut shadowcast::Context<u8>,
    world: &World,
    origin: Coordinate,
    range_squared: u32,
    initial_visibility: u8,
) -> (cells: Vec<VisibleCell>)
    requires
        world.wf(),
        world.size_spec().contains_spec(origin),
    ensures
        cells@ == shadowcast_visible(
            world.size_spec().width,
            world.size_spec().height,
            world.opacity_view(),
            origin.x,
            origin.y,
            range_squared,
            initial_visibility,
        ),
        cells@.len() > 0,
        cells@[0] == (VisibleCell {
            coord: origin,
            directions: DirectionBitmap { raw: 0xff },
            visibility: initial_visibility,
        }),
{
    let mut cells = Vec::new();
    let from = coord_2d::Coord::new(origin.x, origin.y);
    let range = shadowcast::vision_distance::Circle::new_squared(range_squared);
    let report = |c: coord_2d::Coord, d: shadowcast::DirectionBitmap, v: u8|
        cells.push(VisibleCell::new(Coordinate::new(c.x, c.y), DirectionBitmap::new(d.raw), v));
    context.for_each_visible(from, &WorldOpacity, world, range, initial_visibility, report);
    cells
}

/// What a sweep of `world` from `origin` reports: the sweep itself where
/// `origin` lies inside the world, and nothing where it does not.
pub fn sweep_world(world: &World, origin: Coordinate, range_squared: u32)
    -> (cells: Vec<VisibleCell>)
    requires
        world.wf(),
    ensures
        cells@ == sweep_of(world, origin, range_squared),
        world.size_spec().contains_spec(origin) ==> cells@.len() > 0 && cells@[0].coord == origin,
{
    let mut context = new_sweep_context();
    sweep_from(&mut context, world, origin, range_squared)
}

/// What a sweep of `world` from `origin` reports, with the working memory
/// of the caller.
fn sweep_from(
    context: &mut shadowcast::Context<u8>,
    world: &World,
    origin: Coordinate,
    range_squared: u32,
) -> (cells: Vec<VisibleCell>)
    requires
        world.wf(),
    ensures
        cells@ == sweep_of(world, origin, range_squared),
        world.size_spec().contains_spec(origin) ==> cells@.len() > 0 && cells@[0].coord == origin,
{
    if world.size().contains(origin) {
        sweep(context, world, origin, range_squared, FULL_VISIBILITY)
    } else {
        Vec::new()
    }
}

impl VisibleCell {
    pub fn new(coord: Coordinate, directions: DirectionBitmap, visibility: u8) -> (r: VisibleCell)
        ensures
            r == (VisibleCell { coord, directions, visibility }),
    {
        VisibleCell { coord, directions, visibility }
    }
}

impl VisibilityCell {
    pub open spec fn is_visible_spec(&self, state: VisibilityState) -> bool {
        self.last_seen == state.count
    }

    /// Whether the cell was seen at the epoch of `state`.
    pub fn is_visible(&self, state: VisibilityState) -> (r: bool)
        ensures
            r == self.is_visible_spec(state),
    {
        self.last_seen == state.count
    }

    pub open spec fn is_discovered_spec(&self) -> bool {
        self.last_seen != 0
    }

    /// Whether the cell was ever seen.
    pub fn is_discovered(&self) -> (r: bool)
        ensures
            r == self.is_discovered_spec(),
    {
        self.last_seen != 0
    }

    pub open spec fn light_colour_spec(&self, state: VisibilityState) -> Rgb24 {
        if self.last_lit == state.count {
            self.light_colour
        } else {
            Rgb24::black_spec()
        }
    }

    /// The light gathered on the cell at the epoch of `state`, and black
    /// where it was not lit then.
    pub fn light_colour(&self, state: VisibilityState) -> (c: Rgb24)
        ensures
            c == self.light_colour_spec(state),
    {
        if self.last_lit == state.count {
            self.light_colour
        } else {
            Rgb24::black()
        }
    }
}

impl VisibileArea {
    pub closed spec fn size_spec(&self) -> GridSize {
        self.grid.size_spec()
    }

    /// The cells in row-major order.
    pub closed spec fn cells_spec(&self) -> Seq<VisibilityCell> {
        self.grid.cells()
    }

    /// The current epoch.
    pub closed spec fn epoch_spec(&self) -> u64 {
        self.count
    }

    pub closed spec fn grid_wf(&self) -> bool {
        self.grid.wf()
    }

    /// The cell at `coord`, which lies inside the grid.
    pub open spec fn cell_spec(&self, coord: Coordinate) -> VisibilityCell {
        self.cells_spec()[self.size_spec().index_of(coord)]
    }

    /// The field's invariant: one cell for each coordinate, an epoch of at
    /// least 1, and no cell stamped beyond it.
    pub open spec fn wf(&self) -> bool {
        &&& self.grid_wf()
        &&& self.size_spec().valid()
        &&& self.cells_spec().len() == self.size_spec().area()
        &&& self.epoch_spec() >= 1
        &&& stamps_within(self.cells_spec(), self.epoch_spec())
    }

    /// Whether this field is `before` after an update for a player at
    /// `player_coord` in `world`: one epoch later, with the cells that the
    /// player's sweep and then the sweeps of the lights of `world`, in the
    /// order of the light table, make of the cells of `before`.
    pub open spec fn updated(
        &self,
        before: &VisibileArea,
        player_coord: Coordinate,
        world: &World,
    ) -> bool {
        &&& self.size_spec() == before.size_spec()
        &&& self.epoch_spec() == before.epoch_spec() + 1
        &&& self.cells_spec() == shine_all(
            mark_seen(
                before.cells_spec(),
                before.size_spec(),
                self.epoch_spec(),
                sweep_of(world, player_coord, VISION_DISTANCE_SQUARED),
            ),
            before.size_spec(),
            self.epoch_spec(),
            world.lights_spec(),
            world,
        )
    }

    /// Whether this is a field of `size` at epoch 1 in which nothing was
    /// ever seen or lit.
    pub open spec fn is_new(&self, size: GridSize) -> bool {
        &&& self.size_spec() == size
        &&& self.epoch_spec() == 1
        &&& self.cells_spec().len() == size.area()
        &&& forall|i: int|
            0 <= i < size.area() ==> #[trigger] self.cells_spec()[i] == (VisibilityCell {
                last_seen: 0,
                last_lit: 0,
                visible_directions: DirectionBitmap { raw: 0 },
                light_colour: Rgb24::black_spec(),
            })
    }

    /// A field at epoch 1 in which nothing was ever seen or lit.
    pub fn new(size: GridSize) -> (area: VisibileArea)
        requires
            size.buildable(),
        ensures
            area.wf(),
            area.is_new(size),
    {
        let grid = VisibilityGrid::new_copy(
            size,
            VisibilityCell {
                last_seen: 0,
                last_lit: 0,
                visible_directions: DirectionBitmap::empty(),
                light_colour: Rgb24::black(),
            },
        );
        VisibileArea { grid, count: 1, shadowcast: new_sweep_context() }
    }

    pub fn size(&self) -> (s: GridSize)
        ensures
            s == self.size_spec(),
    {
        self.grid.size()
    }

    /// The current epoch.
    pub fn epoch(&self) -> (r: u64)
        ensures
            r == self.epoch_spec(),
    {
        self.count
    }

    /// The snapshot that later questions are asked against.
    pub fn state(&self) -> (s: VisibilityState)
        ensures
            s.count == self.epoch_spec(),
    {
        VisibilityState { count: self.count }
    }

    /// The cell at `coord`, or `None` where `coord` lies outside the grid.
    pub fn cell(&self, coord: Coordinate) -> (r: Option<VisibilityCell>)
        requires
            self.wf(),
        ensures
            r.is_some() == self.size_spec().contains_spec(coord),
            r.is_some() ==> r.unwrap() == self.cell_spec(coord),
    {
        match self.grid.get(coord) {
            Some(cell) => Some(*cell),
            None => None,
        }
    }

    pub open spec fn is_visible_spec(&self, coord: Coordinate, state: VisibilityState) -> bool {
        self.size_spec().contains_spec(coord) && self.cell_spec(coord).is_visible_spec(state)
    }

    /// Whether `coord` was seen at the epoch of `state`.
    pub fn is_visible(&self, coord: Coordinate, state: VisibilityState) -> (r: bool)
        requires
            self.wf(),
        ensures
            r == self.is_visible_spec(coord, state),
    {
        match self.grid.get(coord) {
            Some(cell) => cell.is_visible(state),
            None => false,
        }
    }

    pub open spec fn is_discovered_spec(&self, coord: Coordinate) -> bool {
        self.size_spec().contains_spec(coord) && self.cell_spec(coord).is_discovered_spec()
    }

    /// Whether `coord` was ever seen.
    pub fn is_discovered(&self, coord: Coordinate) -> (r: bool)
        requires
            self.wf(),
        ensures
            r == self.is_discovered_spec(coord),
    {
        match self.grid.get(coord) {
            Some(cell) => cell.is_discovered(),
            None => false,
        }
    }

    pub open spec fn light_colour_spec(&self, coord: Coordinate, state: VisibilityState) -> Rgb24 {
        if self.size_spec().contains_spec(coord) {
            self.cell_spec(coord).light_colour_spec(state)
        } else {
            Rgb24::black_spec()
        }
    }

    /// The light gathered at `coord` at the epoch of `state`, and black
    /// where it was not lit then.
    pub fn light_colour(&self, coord: Coordinate, state: VisibilityState) -> (c: Rgb24)
        requires
            self.wf(),
        ensures
            c == self.light_colour_spec(coord, state),
    {
        match self.grid.get(coord) {
            Some(cell) => cell.light_colour(state),
            None => Rgb24::black(),
        }
    }

    /// Starts a new epoch and marks what the player's sweep reports as seen
    /// in it.
    pub fn apply_player_sweep(&mut self, sweep: &Vec<VisibleCell>)
        requires
            old(self).wf(),
            old(self).epoch_spec() < u64::MAX,
        ensures
            final(self).wf(),
            final(self).size_spec() == old(self).size_spec(),
            final(self).epoch_spec() == old(self).epoch_spec() + 1,
            final(self).cells_spec() == mark_seen(
                old(self).cells_spec(),
                old(self).size_spec(),
                final(self).epoch_spec(),
                sweep@,
            ),
            forall|k: int|
                0 <= k < sweep@.len() && old(self).size_spec().contains_spec(
                    (#[trigger] sweep@[k]).coord,
                ) ==> final(self).cell_spec(sweep@[k].coord).last_seen == final(self).epoch_spec(),
            seen_then_or_now(
                old(self).cells_spec(),
                final(self).cells_spec(),
                final(self).epoch_spec(),
            ),
    {
        self.count = self.count + 1;
        let epoch = self.count;
        let size = self.grid.size();
        let mut k: usize = 0;
        while k < sweep.len()
            invariant
                k <= sweep@.len(),
                self.grid.wf(),
                self.grid.size_spec() == size,
                size == old(self).grid.size_spec(),
                self.count == epoch,
                epoch == old(self).count + 1,
                self.grid.cells() == mark_seen(
                    old(self).grid.cells(),
                    size,
                    epoch,
                    sweep@.take(k as int),
                ),
                forall|j: int|
                    0 <= j < k && size.contains_spec((#[trigger] sweep@[j]).coord)
                        ==> self.grid.cells()[size.index_of(sweep@[j].coord)].last_seen == epoch,
                self.grid.cells().len() == size.area(),
                stamps_within(self.grid.cells(), epoch),
                seen_then_or_now(old(self).grid.cells(), self.grid.cells(), epoch),
            decreases sweep@.len() - k,
        {
            proof {
                assert(sweep@.take(k + 1).drop_last() == sweep@.take(k as int));
                assert(sweep@.take(k + 1).last() == sweep@[k as int]);
            }
            let v = sweep[k];
            match self.grid.get(v.coord) {
                Some(cell) => {
                    let seen = VisibilityCell {
                        last_seen: epoch,
                        last_lit: cell.last_lit,
                        visible_directions: v.directions,
                        light_colour: cell.light_colour,
                    };
                    proof {
                        size.lemma_index_in_range(v.coord);
                        assert forall|j: int|
                            0 <= j < k && size.contains_spec(
                                (#[trigger] sweep@[j]).coord,
                            ) implies 0 <= size.index_of(sweep@[j].coord) < size.area() by {
                            size.lemma_index_in_range(sweep@[j].coord);
                        }
                    }
                    self.grid.set(v.coord, seen);
                },
                None => {},
            }
            k += 1;
        }
        proof {
            assert(sweep@.take(k as int) == sweep@);
        }
    }

    /// Adds what one light's sweep reports to the cells that the player
    /// sees this epoch.
    pub fn apply_light_sweep(&mut self, light: &Light, sweep: &Vec<VisibleCell>)
        requires
            old(self).wf(),
        ensures
            final(self).wf(),
            final(self).size_spec() == old(self).size_spec(),
            final(self).epoch_spec() == old(self).epoch_spec(),
            final(self).cells_spec() == shine(
                old(self).cells_spec(),
                old(self).size_spec(),
                old(self).epoch_spec(),
                *light,
                sweep@,
            ),
            sight_kept(old(self).cells_spec(), final(self).cells_spec()),
            seen_then_or_now(
                old(self).cells_spec(),
                final(self).cells_spec(),
                final(self).epoch_spec(),
            ),
    {
        let epoch = self.count;
        let size = self.grid.size();
        let mut k: usize = 0;
        while k < sweep.len()
            invariant
                k <= sweep@.len(),
                self.grid.wf(),
                self.grid.size_spec() == size,
                size == old(self).grid.size_spec(),
                self.count == epoch,
                epoch == old(self).count,
                self.grid.cells() == shine(
                    old(self).grid.cells(),
                    size,
                    epoch,
                    *light,
                    sweep@.take(k as int),
                ),
                sight_kept(old(self).grid.cells(), self.grid.cells()),
                self.grid.cells().len() == size.area(),
                stamps_within(self.grid.cells(), epoch),
                seen_then_or_now(old(self).grid.cells(), self.grid.cells(), epoch),
            decreases sweep@.len() - k,
        {
            proof {
                assert(sweep@.take(k + 1).drop_last() == sweep@.take(k as int));
                assert(sweep@.take(k + 1).last() == sweep@[k as int]);
            }
            let v = sweep[k];
            match self.grid.get(v.coord) {
                Some(cell) => {
                    proof {
                        size.lemma_index_in_range(v.coord);
                    }
                    if cell.last_seen == epoch && !v.directions.and(
                        cell.visible_directions,
                    ).is_empty() {
                        let base = if cell.last_lit == epoch {
                            cell.light_colour
                        } else {
                            Rgb24::black()
                        };
                        let lit = VisibilityCell {
                            last_seen: cell.last_seen,
                            last_lit: epoch,
                            visible_directions: cell.visible_directions,
                            light_colour: base.saturating_add(light.colour_at_coord(v.coord)),
                        };
                        self.grid.set(v.coord, lit);
                    } else {
                        assert(self.grid.cells() =~= self.grid.cells().update(
                            size.index_of(v.coord),
                            *cell,
                        ));
                    }
                },
                None => {},
            }
            k += 1;
        }
        proof {
            assert(sweep@.take(k as int) == sweep@);
        }
    }

    /// Recomputes the field for a new tick: a new epoch, the player's sweep
    /// from `player_coord`, then the sweep of every light of `world` in the
    /// order of the light table. The player's own cell is always seen.
    pub fn update(&mut self, player_coord: Coordinate, world: &World)
        requires
            old(self).wf(),
            old(self).epoch_spec() < u64::MAX,
            world.wf(),
        ensures
            final(self).wf(),
            final(self).updated(old(self), player_coord, world),
            final(self).size_spec() == old(self).size_spec(),
            final(self).epoch_spec() == old(self).epoch_spec() + 1,
            final(self).cells_spec() == shine_all(
                mark_seen(
                    old(self).cells_spec(),
                    old(self).size_spec(),
                    final(self).epoch_spec(),
                    sweep_of(world, player_coord, VISION_DISTANCE_SQUARED),
                ),
                old(self).size_spec(),
                final(self).epoch_spec(),
                world.lights_spec(),
                world,
            ),
            world.size_spec().contains_spec(player_coord) && old(self).size_spec().contains_spec(
                player_coord,
            ) ==> final(self).cell_spec(player_coord).last_seen == final(self).epoch_spec(),
            seen_then_or_now(
                old(self).cells_spec(),
                final(self).cells_spec(),
                final(self).epoch_spec(),
            ),
    {
        let player_sweep = sweep_from(
            &mut self.shadowcast,
            world,
            player_coord,
            VISION_DISTANCE_SQUARED,
        );
        self.apply_player_sweep(&player_sweep);
        let ghost seen = self.cells_spec();
        let ghost size = self.size_spec();
        let ghost epoch = self.epoch_spec();
        let lights = world.lights();
        let mut k: usize = 0;
        while k < lights.len()
            invariant
                k <= lights@.len(),
                lights@ == world.lights_spec(),
                world.wf(),
                self.wf(),
                self.size_spec() == size,
                self.epoch_spec() == epoch,
                self.cells_spec() == shine_all(seen, size, epoch, lights@.take(k as int), world),
                sight_kept(seen, self.cells_spec()),
                seen_then_or_now(old(self).cells_spec(), self.cells_spec(), epoch),
            decreases lights@.len() - k,
        {
            proof {
                assert(lights@.take(k + 1).drop_last() == lights@.take(k as int));
                assert(lights@.take(k + 1).last() == lights@[k as int]);
            }
            let light = lights[k].1;
            let light_sweep = sweep_from(
                &mut self.shadowcast,
                world,
                light.coord,
                light.range_squared,
            );
            self.apply_light_sweep(&light, &light_sweep);
            k += 1;
        }
        proof {
            assert(lights@.take(k as int) == lights@);
            if world.size_spec().contains_spec(player_coord) && size.contains_spec(player_coord) {
                size.lemma_index_in_range(player_coord);
                assert(player_sweep@[0].coord == player_coord);
            }
        }
    }
}

/// An update never makes a cell visible under a snapshot that was taken
/// before it: the cells it touches are stamped with the new epoch, which no
/// earlier snapshot holds.
pub proof fn lemma_old_snapshot_stays_hidden(
    before: Seq<VisibilityCell>,
    after: Seq<VisibilityCell>,
    epoch: u64,
    state: VisibilityState,
    i: int,
)
    requires
        seen_then_or_now(before, after, epoch),
        state.count < epoch,
        0 <= i < before.len(),
        !before[i].is_visible_spec(state),
    ensures
        !after[i].is_visible_spec(state),
{
}

/// How many of `cells` were last seen at `epoch`.
pub open spec fn count_seen(cells: Seq<VisibilityCell>, epoch: u64) -> nat
    decreases cells.len(),
{
    if cells.len() == 0 {
        0
    } else if cells.last().last_seen == epoch {
        count_seen(cells.drop_last(), epoch) + 1
    } else {
        count_seen(cells.drop_last(), epoch)
    }
}

/// Where no cell was seen at `epoch`, the count is 0.
pub proof fn lemma_count_seen_none(cells: Seq<VisibilityCell>, epoch: u64)
    requires
        forall|i: int| 0 <= i < cells.len() ==> (#[trigger] cells[i]).last_seen != epoch,
    ensures
        count_seen(cells, epoch) == 0,
    decreases cells.len(),
{
    if cells.len() > 0 {
        lemma_count_seen_none(cells.drop_last(), epoch);
    }
}

/// Replacing one cell raises the count by 1 at most, and not at all where
/// the new cell was last seen when the old one was.
pub proof fn lemma_count_seen_update(
    cells: Seq<VisibilityCell>,
    epoch: u64,
    i: int,
    cell: VisibilityCell,
)
    requires
        0 <= i < cells.len(),
    ensures
        count_seen(cells.update(i, cell), epoch) <= count_seen(cells, epoch) + 1,
        cell.last_seen == cells[i].last_seen ==> count_seen(cells.update(i, cell), epoch)
            == count_seen(cells, epoch),
    decreases cells.len(),
{
    let updated = cells.update(i, cell);
    if i == cells.len() - 1 {
        assert(updated.drop_last() =~= cells.drop_last());
    } else {
        assert(updated.drop_last() =~= cells.drop_last().update(i, cell));
        lemma_count_seen_update(cells.drop_last(), epoch, i, cell);
    }
}

/// The player's sweep marks no more cells as seen than it reports
/// coordinates.
pub proof fn lemma_mark_seen_count(
    cells: Seq<VisibilityCell>,
    size: GridSize,
    epoch: u64,
    sweep: Seq<VisibleCell>,
)
    requires
        size.valid(),
        cells.len() == size.area(),
    ensures
        mark_seen(cells, size, epoch, sweep).len() == cells.len(),
        count_seen(mark_seen(cells, size, epoch, sweep), epoch) <= count_seen(cells, epoch)
            + sweep.len(),
    decreases sweep.len(),
{
    if sweep.len() > 0 {
        lemma_mark_seen_count(cells, size, epoch, sweep.drop_last());
        let before = mark_seen(cells, size, epoch, sweep.drop_last());
        let v = sweep.last();
        if size.contains_spec(v.coord) {
            size.lemma_index_in_range(v.coord);
            let i = size.index_of(v.coord);
            lemma_count_seen_update(before, epoch, i, seen_cell(before[i], epoch, v.directions));
        }
    }
}

/// A light changes nothing of when a cell was last seen.
pub proof fn lemma_shine_count(
    cells: Seq<VisibilityCell>,
    size: GridSize,
    epoch: u64,
    light: Light,
    sweep: Seq<VisibleCell>,
)
    requires
        size.valid(),
        cells.len() == size.area(),
    ensures
        shine(cells, size, epoch, light, sweep).len() == cells.len(),
        count_seen(shine(cells, size, epoch, light, sweep), epoch) == count_seen(cells, epoch),
    decreases sweep.len(),
{
    if sweep.len() > 0 {
        lemma_shine_count(cells, size, epoch, light, sweep.drop_last());
        let before = shine(cells, size, epoch, light, sweep.drop_last());
        let v = sweep.last();
        if size.contains_spec(v.coord) {
            size.lemma_index_in_range(v.coord);
            let i = size.index_of(v.coord);
            lemma_count_seen_update(
                before,
                epoch,
                i,
                lit_cell(before[i], epoch, v.directions, light.colour_at_coord_spec(v.coord)),
            );
        }
    }
}

/// The lights of a world change nothing of when a cell was last seen.
pub proof fn lemma_shine_all_count(
    cells: Seq<VisibilityCell>,
    size: GridSize,
    epoch: u64,
    lights: Seq<(LightId, Light)>,
    world: &World,
)
    requires
        size.valid(),
        cells.len() == size.area(),
    ensures
        shine_all(cells, size, epoch, lights, world).len() == cells.len(),
        count_seen(shine_all(cells, size, epoch, lights, world), epoch) == count_seen(
            cells,
            epoch,
        ),
    decreases lights.len(),
{
    if lights.len() > 0 {
        lemma_shine_all_count(cells, size, epoch, lights.drop_last(), world);
        let light = lights.last().1;
        lemma_shine_count(
            shine_all(cells, size, epoch, lights.drop_last(), world),
            size,
            epoch,
            light,
            sweep_of(world, light.coord, light.range_squared),
        );
    }
}

/// After an update, no more cells are stamped with the new epoch than the
/// player's sweep reported coordinates: nothing else is touched, so no
/// cell needs to be cleared.
pub proof fn lemma_update_touches_only_the_sweep(
    cells: Seq<VisibilityCell>,
    size: GridSize,
    epoch: u64,
    sweep: Seq<VisibleCell>,
    lights: Seq<(LightId, Light)>,
    world: &World,
)
    requires
        size.valid(),
        cells.len() == size.area(),
        forall|i: int| 0 <= i < cells.len() ==> (#[trigger] cells[i]).last_seen < epoch,
    ensures
        count_seen(
            shine_all(mark_seen(cells, size, epoch, sweep), size, epoch, lights, world),
            epoch,
        ) <= sweep.len(),
{
    lemma_count_seen_none(cells, epoch);
    lemma_mark_seen_count(cells, size, epoch, sweep);
    lemma_shine_all_count(mark_seen(cells, size, epoch, sweep), size, epoch, lights, world);
}

/// A cell is stamped with the new epoch exactly where the player's sweep
/// reported its coordinate.
pub proof fn lemma_mark_seen_exact(
    cells: Seq<VisibilityCell>,
    size: GridSize,
    epoch: u64,
    sweep: Seq<VisibleCell>,
    i: int,
)
    requires
        size.valid(),
        cells.len() == size.area(),
        0 <= i < cells.len(),
        cells[i].last_seen != epoch,
    ensures
        mark_seen(cells, size, epoch, sweep).len() == cells.len(),
        (mark_seen(cells, size, epoch, sweep)[i].last_seen == epoch) == (exists|k: int|
            0 <= k < sweep.len() && (#[trigger] sweep[k]).coord == size.coord_at(i)),
        mark_seen(cells, size, epoch, sweep)[i].last_seen != epoch ==> mark_seen(
            cells,
            size,
            epoch,
            sweep,
        )[i] == cells[i],
    decreases sweep.len(),
{
    size.lemma_coord_at_in_range(i);
    if sweep.len() > 0 {
        let rest = sweep.drop_last();
        lemma_mark_seen_exact(cells, size, epoch, rest, i);
        let v = sweep.last();
        if size.contains_spec(v.coord) {
            size.lemma_index_in_range(v.coord);
        }
        if exists|k: int| 0 <= k < rest.len() && (#[trigger] rest[k]).coord == size.coord_at(i) {
            let k = choose|k: int|
                0 <= k < rest.len() && (#[trigger] rest[k]).coord == size.coord_at(i);
            assert(sweep[k].coord == size.coord_at(i));
        }
        if v.coord == size.coord_at(i) {
            assert(sweep[sweep.len() - 1].coord == size.coord_at(i));
        }
        if exists|k: int| 0 <= k < sweep.len() && (#[trigger] sweep[k]).coord == size.coord_at(i) {
            let k = choose|k: int|
                0 <= k < sweep.len() && (#[trigger] sweep[k]).coord == size.coord_at(i);
            if k < rest.len() {
                assert(rest[k].coord == size.coord_at(i));
            }
        }
    }
}

/// A light leaves a cell as it was where each report of its sweep for that
/// cell comes from directions that share none with those from which the
/// player sees the cell: light that arrives on a side the player cannot
/// see does not count.
pub proof fn lemma_shine_gated(
    cells: Seq<VisibilityCell>,
    size: GridSize,
    epoch: u64,
    light: Light,
    sweep: Seq<VisibleCell>,
    i: int,
)
    requires
        size.valid(),
        cells.len() == size.area(),
        0 <= i < cells.len(),
        forall|k: int|
            0 <= k < sweep.len() && (#[trigger] sweep[k]).coord == size.coord_at(i)
                ==> !sweep[k].directions.overlaps(cells[i].visible_directions),
    ensures
        shine(cells, size, epoch, light, sweep).len() == cells.len(),
        shine(cells, size, epoch, light, sweep)[i] == cells[i],
    decreases sweep.len(),
{
    size.lemma_coord_at_in_range(i);
    if sweep.len() > 0 {
        let rest = sweep.drop_last();
        assert forall|k: int|
            0 <= k < rest.len() && (#[trigger] rest[k]).coord == size.coord_at(
                i,
            ) implies !rest[k].directions.overlaps(cells[i].visible_directions) by {
            assert(rest[k] == sweep[k]);
        }
        lemma_shine_gated(cells, size, epoch, light, rest, i);
        lemma_shine_count(cells, size, epoch, light, rest);
        let v = sweep.last();
        if size.contains_spec(v.coord) {
            size.lemma_index_in_range(v.coord);
            assert(sweep[sweep.len() - 1] == v);
        }
    }
}

/// A cell that the player does not see this epoch is left as it was by
/// every light.
pub proof fn lemma_shine_unseen(
    cells: Seq<VisibilityCell>,
    size: GridSize,
    epoch: u64,
    light: Light,
    sweep: Seq<VisibleCell>,
    i: int,
)
    requires
        size.valid(),
        cells.len() == size.area(),
        0 <= i < cells.len(),
        cells[i].last_seen != epoch,
    ensures
        shine(cells, size, epoch, light, sweep).len() == cells.len(),
        shine(cells, size, epoch, light, sweep)[i] == cells[i],
    decreases sweep.len(),
{
    if sweep.len() > 0 {
        lemma_shine_unseen(cells, size, epoch, light, sweep.drop_last(), i);
        let v = sweep.last();
        if size.contains_spec(v.coord) {
            size.lemma_index_in_range(v.coord);
        }
    }
}

/// The first light to count on a cell in an epoch gives the cell exactly
/// its own colour there, whatever the cell had gathered before.
pub proof fn lemma_first_light(
    cell: VisibilityCell,
    epoch: u64,
    directions: DirectionBitmap,
    colour: Rgb24,
)
    requires
        cell.last_seen == epoch,
        cell.last_lit != epoch,
        directions.overlaps(cell.visible_directions),
    ensures
        lit_cell(cell, epoch, directions, colour).last_lit == epoch,
        lit_cell(cell, epoch, directions, colour).light_colour == colour,
{
}

/// Of two cells that one light alone has lit once each in an epoch, the
/// one nearer to the light is at least as bright in every channel.
pub proof fn lemma_nearer_is_brighter(
    near: VisibilityCell,
    far: VisibilityCell,
    epoch: u64,
    light: Light,
    near_report: VisibleCell,
    far_report: VisibleCell,
)
    requires
        near.last_seen == epoch,
        far.last_seen == epoch,
        near.last_lit != epoch,
        far.last_lit != epoch,
        near_report.directions.overlaps(near.visible_directions),
        far_report.directions.overlaps(far.visible_directions),
        light.coord.distance_squared_spec(near_report.coord) <= light.coord.distance_squared_spec(
            far_report.coord,
        ),
    ensures
        lit_cell(
            near,
            epoch,
            near_report.directions,
            light.colour_at_coord_spec(near_report.coord),
        ).light_colour.at_least(
            lit_cell(
                far,
                epoch,
                far_report.directions,
                light.colour_at_coord_spec(far_report.coord),
            ).light_colour,
        ),
{
    crate::entity::lemma_falloff_monotone(light, near_report.coord, far_report.coord);
}

/// How often `sweep` reports the cell at `coord`.
pub open spec fn times_reported(sweep: Seq<VisibleCell>, coord: Coordinate) -> nat
    decreases sweep.len(),
{
    if sweep.len() == 0 {
        0
    } else if sweep.last().coord == coord {
        times_reported(sweep.drop_last(), coord) + 1
    } else {
        times_reported(sweep.drop_last(), coord)
    }
}

/// The player's sweep changes nothing of when a cell was last lit, nor of
/// the light it had gathered.
pub proof fn lemma_mark_seen_keeps_light(
    cells: Seq<VisibilityCell>,
    size: GridSize,
    epoch: u64,
    sweep: Seq<VisibleCell>,
    i: int,
)
    requires
        size.valid(),
        cells.len() == size.area(),
        0 <= i < cells.len(),
    ensures
        mark_seen(cells, size, epoch, sweep).len() == cells.len(),
        mark_seen(cells, size, epoch, sweep)[i].last_lit == cells[i].last_lit,
        mark_seen(cells, size, epoch, sweep)[i].light_colour == cells[i].light_colour,
    decreases sweep.len(),
{
    if sweep.len() > 0 {
        lemma_mark_seen_keeps_light(cells, size, epoch, sweep.drop_last(), i);
        let v = sweep.last();
        if size.contains_spec(v.coord) {
            size.lemma_index_in_range(v.coord);
        }
    }
}

/// A light whose sweep does not report a cell leaves it as it was; a light
/// whose sweep reports a cell once, and which is the first to count on it
/// in the epoch, gives the cell exactly its own colour there.
pub proof fn lemma_shine_once(
    cells: Seq<VisibilityCell>,
    size: GridSize,
    epoch: u64,
    light: Light,
    sweep: Seq<VisibleCell>,
    i: int,
)
    requires
        size.valid(),
        cells.len() == size.area(),
        0 <= i < cells.len(),
        cells[i].last_lit != epoch,
        times_reported(sweep, size.coord_at(i)) <= 1,
    ensures
        shine(cells, size, epoch, light, sweep).len() == cells.len(),
        times_reported(sweep, size.coord_at(i)) == 0 ==> shine(cells, size, epoch, light, sweep)[i]
            == cells[i],
        shine(cells, size, epoch, light, sweep)[i].last_lit == epoch ==> shine(
            cells,
            size,
            epoch,
            light,
            sweep,
        )[i].light_colour == light.colour_at_coord_spec(size.coord_at(i)),
    decreases sweep.len(),
{
    size.lemma_coord_at_in_range(i);
    if sweep.len() > 0 {
        let rest = sweep.drop_last();
        let v = sweep.last();
        lemma_shine_once(cells, size, epoch, light, rest, i);
        let before = shine(cells, size, epoch, light, rest);
        if size.contains_spec(v.coord) {
            size.lemma_index_in_range(v.coord);
            if v.coord == size.coord_at(i) {
                assert(before[i] == cells[i]);
                if cells[i].last_seen == epoch && v.directions.overlaps(
                    cells[i].visible_directions,
                ) {
                    lemma_first_light(
                        cells[i],
                        epoch,
                        v.directions,
                        light.colour_at_coord_spec(v.coord),
                    );
                }
            }
        }
    }
}

/// Whether `sweep` reports the cell at `coord`.
pub open spec fn reports(sweep: Seq<VisibleCell>, coord: Coordinate) -> bool {
    exists|k: int| 0 <= k < sweep.len() && (#[trigger] sweep[k]).coord == coord
}

/// Whether the `k`-th report of `sweep` is its last for the cell at `coord`.
pub open spec fn last_report(sweep: Seq<VisibleCell>, coord: Coordinate, k: int) -> bool {
    &&& 0 <= k < sweep.len()
    &&& sweep[k].coord == coord
    &&& forall|j: int| k < j < sweep.len() ==> (#[trigger] sweep[j]).coord != coord
}

/// Whether `sweep` reports the cell at `coord` from a direction of `mask`.
pub open spec fn reports_toward(sweep: Seq<VisibleCell>, coord: Coordinate, mask: DirectionBitmap)
    -> bool {
    exists|k: int|
        0 <= k < sweep.len() && (#[trigger] sweep[k]).coord == coord && sweep[k].directions.overlaps(
            mask,
        )
}

/// Whether the sweep of one of `lights` in `world` reports the cell at
/// `coord` from a direction of `mask`.
pub open spec fn some_light_reaches(
    world: &World,
    lights: Seq<(LightId, Light)>,
    coord: Coordinate,
    mask: DirectionBitmap,
) -> bool {
    exists|j: int|
        0 <= j < lights.len() && reports_toward(
            sweep_of(world, (#[trigger] lights[j]).1.coord, lights[j].1.range_squared),
            coord,
            mask,
        )
}

/// The last report of the player's sweep for a cell decides from where the
/// cell is seen: it overwrites what earlier reports and earlier epochs left.
pub proof fn lemma_mark_seen_mask(
    cells: Seq<VisibilityCell>,
    size: GridSize,
    epoch: u64,
    sweep: Seq<VisibleCell>,
    i: int,
    k: int,
)
    requires
        size.valid(),
        cells.len() == size.area(),
        0 <= i < cells.len(),
        last_report(sweep, size.coord_at(i), k),
    ensures
        mark_seen(cells, size, epoch, sweep).len() == cells.len(),
        mark_seen(cells, size, epoch, sweep)[i].last_seen == epoch,
        mark_seen(cells, size, epoch, sweep)[i].visible_directions == sweep[k].directions,
    decreases sweep.len(),
{
    size.lemma_coord_at_in_range(i);
    let rest = sweep.drop_last();
    let v = sweep.last();
    lemma_mark_seen_count(cells, size, epoch, rest);
    if size.contains_spec(v.coord) {
        size.lemma_index_in_range(v.coord);
    }
    if k < sweep.len() - 1 {
        assert(sweep[sweep.len() - 1].coord != size.coord_at(i));
        assert(rest[k] == sweep[k]);
        assert forall|j: int| k < j < rest.len() implies (#[trigger] rest[j]).coord
            != size.coord_at(i) by {
            assert(rest[j] == sweep[j]);
        }
        lemma_mark_seen_mask(cells, size, epoch, rest, i, k);
    }
}

/// What the sweep of one light makes of a cell: it changes nothing of when
/// and from where the cell was seen; the cell is lit in the epoch exactly
/// where it was already, or was seen in the epoch and is reported from a
/// direction from which it is seen; and a cell that is not lit in the epoch
/// is left as it was.
pub proof fn lemma_shine_exact(
    cells: Seq<VisibilityCell>,
    size: GridSize,
    epoch: u64,
    light: Light,
    sweep: Seq<VisibleCell>,
    i: int,
)
    requires
        size.valid(),
        cells.len() == size.area(),
        0 <= i < cells.len(),
    ensures
        shine(cells, size, epoch, light, sweep).len() == cells.len(),
        shine(cells, size, epoch, light, sweep)[i].last_seen == cells[i].last_seen,
        shine(cells, size, epoch, light, sweep)[i].visible_directions
            == cells[i].visible_directions,
        (shine(cells, size, epoch, light, sweep)[i].last_lit == epoch) == (cells[i].last_lit
            == epoch || (cells[i].last_seen == epoch && reports_toward(
            sweep,
            size.coord_at(i),
            cells[i].visible_directions,
        ))),
        shine(cells, size, epoch, light, sweep)[i].last_lit != epoch ==> shine(
            cells,
            size,
            epoch,
            light,
            sweep,
        )[i] == cells[i],
    decreases sweep.len(),
{
    size.lemma_coord_at_in_range(i);
    let c = size.coord_at(i);
    let mask = cells[i].visible_directions;
    if sweep.len() > 0 {
        let rest = sweep.drop_last();
        let v = sweep.last();
        lemma_shine_exact(cells, size, epoch, light, rest, i);
        if size.contains_spec(v.coord) {
            size.lemma_index_in_range(v.coord);
        }
        if reports_toward(rest, c, mask) {
            let k = choose|k: int|
                0 <= k < rest.len() && (#[trigger] rest[k]).coord == c
                    && rest[k].directions.overlaps(mask);
            assert(sweep[k] == rest[k]);
        }
        if v.coord == c && v.directions.overlaps(mask) {
            assert(sweep[sweep.len() - 1] == v);
        }
        if reports_toward(sweep, c, mask) {
            let k = choose|k: int|
                0 <= k < sweep.len() && (#[trigger] sweep[k]).coord == c
                    && sweep[k].directions.overlaps(mask);
            if k < rest.len() {
                assert(rest[k] == sweep[k]);
            }
        }
    }
}

/// What the sweeps of all of `lights` make of a cell: they change nothing
/// of when and from where the cell was seen; the cell is lit in the epoch
/// exactly where it was already, or was seen in the epoch and some light's
/// sweep reports it from a direction from which it is seen; and a cell that
/// is not lit in the epoch is left as it was.
pub proof fn lemma_shine_all_exact(
    cells: Seq<VisibilityCell>,
    size: GridSize,
    epoch: u64,
    lights: Seq<(LightId, Light)>,
    world: &World,
    i: int,
)
    requires
        size.valid(),
        cells.len() == size.area(),
        0 <= i < cells.len(),
    ensures
        shine_all(cells, size, epoch, lights, world).len() == cells.len(),
        shine_all(cells, size, epoch, lights, world)[i].last_seen == cells[i].last_seen,
        shine_all(cells, size, epoch, lights, world)[i].visible_directions
            == cells[i].visible_directions,
        (shine_all(cells, size, epoch, lights, world)[i].last_lit == epoch) == (cells[i].last_lit
            == epoch || (cells[i].last_seen == epoch && some_light_reaches(
            world,
            lights,
            size.coord_at(i),
            cells[i].visible_directions,
        ))),
        shine_all(cells, size, epoch, lights, world)[i].last_lit != epoch ==> shine_all(
            cells,
            size,
            epoch,
            lights,
            world,
        )[i] == cells[i],
    decreases lights.len(),
{
    let c = size.coord_at(i);
    let mask = cells[i].visible_directions;
    if lights.len() > 0 {
        let rest = lights.drop_last();
        let light = lights.last().1;
        let sweep = sweep_of(world, light.coord, light.range_squared);
        lemma_shine_all_exact(cells, size, epoch, rest, world, i);
        lemma_shine_exact(shine_all(cells, size, epoch, rest, world), size, epoch, light, sweep, i);
        if some_light_reaches(world, rest, c, mask) {
            let j = choose|j: int|
                0 <= j < rest.len() && reports_toward(
                    sweep_of(world, (#[trigger] rest[j]).1.coord, rest[j].1.range_squared),
                    c,
                    mask,
                );
            assert(lights[j] == rest[j]);
        }
        if reports_toward(sweep, c, mask) {
            assert(lights[lights.len() - 1] == lights.last());
        }
        if some_light_reaches(world, lights, c, mask) {
            let j = choose|j: int|
                0 <= j < lights.len() && reports_toward(
                    sweep_of(world, (#[trigger] lights[j]).1.coord, lights[j].1.range_squared),
                    c,
                    mask,
                );
            if j < rest.len() {
                assert(rest[j] == lights[j]);
            }
        }
    }
}

/// An update makes no cell visible or lit under a snapshot that was taken
/// before it: the cells it touches are stamped with the new epoch, which no
/// earlier snapshot holds.
pub proof fn lemma_update_keeps_old_snapshots(
    before: &VisibileArea,
    after: &VisibileArea,
    player_coord: Coordinate,
    world: &World,
    state: VisibilityState,
    coord: Coordinate,
)
    requires
        before.wf(),
        after.updated(before, player_coord, world),
        state.count <= before.epoch_spec(),
        before.size_spec().contains_spec(coord),
    ensures
        !before.cell_spec(coord).is_visible_spec(state) ==> !after.cell_spec(
            coord,
        ).is_visible_spec(state),
        before.cell_spec(coord).last_lit != state.count ==> after.cell_spec(coord).last_lit
            != state.count,
        before.cell_spec(coord).last_lit != state.count ==> after.cell_spec(
            coord,
        ).light_colour_spec(state) == Rgb24::black_spec(),
{
    let size = before.size_spec();
    let epoch = after.epoch_spec();
    let sweep = sweep_of(world, player_coord, VISION_DISTANCE_SQUARED);
    let seen = mark_seen(before.cells_spec(), size, epoch, sweep);
    size.lemma_index_in_range(coord);
    let i = size.index_of(coord);
    lemma_mark_seen_exact(before.cells_spec(), size, epoch, sweep, i);
    lemma_mark_seen_keeps_light(before.cells_spec(), size, epoch, sweep, i);
    lemma_shine_all_exact(seen, size, epoch, world.lights_spec(), world, i);
}

/// After an update, no more cells are stamped with the new epoch than the
/// player's sweep reported coordinates: what earlier epochs left is stale
/// by its stamp alone, and no cell needs to be cleared.
pub proof fn lemma_update_stamps_within_sweep(
    before: &VisibileArea,
    after: &VisibileArea,
    player_coord: Coordinate,
    world: &World,
)
    requires
        before.wf(),
        after.updated(before, player_coord, world),
    ensures
        count_seen(after.cells_spec(), after.epoch_spec()) <= sweep_of(
            world,
            player_coord,
            VISION_DISTANCE_SQUARED,
        ).len(),
{
    lemma_update_touches_only_the_sweep(
        before.cells_spec(),
        before.size_spec(),
        after.epoch_spec(),
        sweep_of(world, player_coord, VISION_DISTANCE_SQUARED),
        world.lights_spec(),
        world,
    );
}

/// After an update, a cell is visible exactly where the player's sweep
/// reported it, and is then seen from the directions of the sweep's last
/// report for it, whatever it was seen from before; a cell that the sweep
/// did not report was last seen when and from where it was before; and the
/// lights change none of this.
pub proof fn lemma_update_sees_what_is_reported(
    before: &VisibileArea,
    after: &VisibileArea,
    player_coord: Coordinate,
    world: &World,
    coord: Coordinate,
)
    requires
        before.wf(),
        after.updated(before, player_coord, world),
        before.size_spec().contains_spec(coord),
    ensures
        (after.cell_spec(coord).last_seen == after.epoch_spec()) == reports(
            sweep_of(world, player_coord, VISION_DISTANCE_SQUARED),
            coord,
        ),
        forall|k: int|
            last_report(sweep_of(world, player_coord, VISION_DISTANCE_SQUARED), coord, k)
                ==> after.cell_spec(coord).visible_directions == (#[trigger] sweep_of(
                world,
                player_coord,
                VISION_DISTANCE_SQUARED,
            )[k]).directions,
        !reports(sweep_of(world, player_coord, VISION_DISTANCE_SQUARED), coord) ==> {
            &&& after.cell_spec(coord).last_seen == before.cell_spec(coord).last_seen
            &&& after.cell_spec(coord).visible_directions == before.cell_spec(
                coord,
            ).visible_directions
        },
{
    let size = before.size_spec();
    let epoch = after.epoch_spec();
    let sweep = sweep_of(world, player_coord, VISION_DISTANCE_SQUARED);
    let seen = mark_seen(before.cells_spec(), size, epoch, sweep);
    size.lemma_index_in_range(coord);
    let i = size.index_of(coord);
    lemma_mark_seen_exact(before.cells_spec(), size, epoch, sweep, i);
    lemma_shine_all_exact(seen, size, epoch, world.lights_spec(), world, i);
    assert forall|k: int| last_report(sweep, coord, k) implies after.cell_spec(
        coord,
    ).visible_directions == (#[trigger] sweep[k]).directions by {
        lemma_mark_seen_mask(before.cells_spec(), size, epoch, sweep, i, k);
    }
}

/// After an update, a cell is lit in the new epoch exactly where the
/// player sees it in that epoch and the sweep of some light reports it from
/// a direction from which the player sees it; so what is lit is visible. A
/// cell that is not lit in the new epoch keeps the light and the stamp it
/// had, and is black under the new snapshot.
pub proof fn lemma_update_lights_what_is_seen_and_reached(
    before: &VisibileArea,
    after: &VisibileArea,
    player_coord: Coordinate,
    world: &World,
    state: VisibilityState,
    coord: Coordinate,
)
    requires
        before.wf(),
        after.updated(before, player_coord, world),
        state.count == after.epoch_spec(),
        before.size_spec().contains_spec(coord),
    ensures
        (after.cell_spec(coord).last_lit == after.epoch_spec()) == (after.cell_spec(
            coord,
        ).is_visible_spec(state) && some_light_reaches(
            world,
            world.lights_spec(),
            coord,
            after.cell_spec(coord).visible_directions,
        )),
        after.cell_spec(coord).last_lit != after.epoch_spec() ==> {
            &&& after.cell_spec(coord).last_lit == before.cell_spec(coord).last_lit
            &&& after.cell_spec(coord).light_colour == before.cell_spec(coord).light_colour
            &&& after.cell_spec(coord).light_colour_spec(state) == Rgb24::black_spec()
        },
{
    let size = before.size_spec();
    let epoch = after.epoch_spec();
    let sweep = sweep_of(world, player_coord, VISION_DISTANCE_SQUARED);
    let seen = mark_seen(before.cells_spec(), size, epoch, sweep);
    size.lemma_index_in_range(coord);
    let i = size.index_of(coord);
    lemma_mark_seen_keeps_light(before.cells_spec(), size, epoch, sweep, i);
    lemma_shine_all_exact(seen, size, epoch, world.lights_spec(), world, i);
}

/// After an update, a cell that the player sees but that every light
/// reaches only from directions from which the player does not see it is
/// visible and black under the new snapshot, whatever light it had
/// gathered before.
pub proof fn lemma_update_gated(
    before: &VisibileArea,
    after: &VisibileArea,
    player_coord: Coordinate,
    world: &World,
    state: VisibilityState,
    coord: Coordinate,
)
    requires
        before.wf(),
        after.updated(before, player_coord, world),
        state.count == after.epoch_spec(),
        before.size_spec().contains_spec(coord),
        reports(sweep_of(world, player_coord, VISION_DISTANCE_SQUARED), coord),
        !some_light_reaches(
            world,
            world.lights_spec(),
            coord,
            after.cell_spec(coord).visible_directions,
        ),
    ensures
        after.is_visible_spec(coord, state),
        after.light_colour_spec(coord, state) == Rgb24::black_spec(),
{
    lemma_update_sees_what_is_reported(before, after, player_coord, world, coord);
    lemma_update_lights_what_is_seen_and_reached(
        before,
        after,
        player_coord,
        world,
        state,
        coord,
    );
}

/// After an update in a world with one light, of two cells that are both
/// lit in the new epoch and that the light's sweep has reported once each,
/// the one nearer to the light is at least as bright in every channel.
pub proof fn lemma_nearer_is_brighter_after_update(
    before: &VisibileArea,
    after: &VisibileArea,
    player_coord: Coordinate,
    world: &World,
    state: VisibilityState,
    near: Coordinate,
    far: Coordinate,
)
    requires
        before.wf(),
        after.updated(before, player_coord, world),
        state.count == after.epoch_spec(),
        world.lights_spec().len() == 1,
        before.size_spec().contains_spec(near),
        before.size_spec().contains_spec(far),
        times_reported(
            sweep_of(world, world.lights_spec()[0].1.coord, world.lights_spec()[0].1.range_squared),
            near,
        ) == 1,
        times_reported(
            sweep_of(world, world.lights_spec()[0].1.coord, world.lights_spec()[0].1.range_squared),
            far,
        ) == 1,
        after.cell_spec(near).last_lit == after.epoch_spec(),
        after.cell_spec(far).last_lit == after.epoch_spec(),
        world.lights_spec()[0].1.coord.distance_squared_spec(near)
            <= world.lights_spec()[0].1.coord.distance_squared_spec(far),
    ensures
        after.light_colour_spec(near, state).at_least(after.light_colour_spec(far, state)),
{
    let size = before.size_spec();
    let epoch = after.epoch_spec();
    let cells = before.cells_spec();
    let player_sweep = sweep_of(world, player_coord, VISION_DISTANCE_SQUARED);
    let lights = world.lights_spec();
    let light = lights[0].1;
    let sweep = sweep_of(world, light.coord, light.range_squared);
    let seen = mark_seen(cells, size, epoch, player_sweep);
    assert(lights.last() == lights[0]);
    assert(lights.drop_last().len() == 0);
    assert(shine_all(seen, size, epoch, lights.drop_last(), world) == seen);
    assert(shine_all(seen, size, epoch, lights, world) == shine(seen, size, epoch, light, sweep));
    size.lemma_index_in_range(near);
    size.lemma_index_in_range(far);
    let n = size.index_of(near);
    let f = size.index_of(far);
    lemma_mark_seen_keeps_light(cells, size, epoch, player_sweep, n);
    lemma_mark_seen_keeps_light(cells, size, epoch, player_sweep, f);
    lemma_shine_once(seen, size, epoch, light, sweep, n);
    lemma_shine_once(seen, size, epoch, light, sweep, f);
    crate::entity::lemma_falloff_monotone(light, near, far);
}

} // verus!
