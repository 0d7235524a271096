//! The types of the outside crates that the library holds or passes on, and
//! the conversions between their coordinates and the library's.

use vstd::prelude::*;
use crate::geometry::{Coordinate, GridSize};

verus! {

/// The coordinate that the sweep and the searches speak of.
#[verifier::external_type_specification]
#[verifier::external_body]
pub struct ExCoord(coord_2d::Coord);

/// The size that the sweep and the searches speak of.
#[verifier::external_type_specification]
#[verifier::external_body]
pub struct ExSize(coord_2d::Size);

/// The memory of the bounded search, which the pathfinding keeps between
/// searches.
#[verifier::external_type_specification]
#[verifier::external_body]
#[verifier::reject_recursive_types(Cost)]
pub struct ExSearchContext<Cost: PartialOrd<Cost>>(grid_search::SearchContext<Cost>);

/// The queue of the breadth-first search.
#[verifier::external_type_specification]
#[verifier::external_body]
pub struct ExBfsContext(grid_search::BfsContext);

/// The distance field that the breadth-first search fills and the bounded
/// search reads.
#[verifier::external_type_specification]
#[verifier::external_body]
#[verifier::reject_recursive_types(Cost)]
#[verifier::reject_recursive_types(Directions)]
pub struct ExUniformDistanceMap<Cost, Directions>(
    grid_search::UniformDistanceMap<Cost, Directions>,
);

/// The four cardinal directions, as the searches enumerate them.
#[verifier::external_type_specification]
#[verifier::external_body]
pub struct ExDirectionsCardinal(direction::DirectionsCardinal);

/// The working memory of the sweep, which the visibility field keeps
/// between sweeps.
#[verifier::external_type_specification]
#[verifier::external_body]
#[verifier::reject_recursive_types(Visibility)]
pub struct ExSweepContext<Visibility>(shadowcast::Context<Visibility>);

/// The generator of random numbers that shuffles the cards.
#[verifier::external_type_specification]
#[verifier::external_body]
pub struct ExIsaacRng(rand_isaac::IsaacRng);

/// The coordinate that `coord_2d::Coord::new` makes of two numbers.
pub uninterp spec fn outside_coord(x: i32, y: i32) -> coord_2d::Coord;

/// The size that `coord_2d::Size::new` makes of a width and a height.
pub uninterp spec fn outside_size(width: u32, height: u32) -> coord_2d::Size;

/// Takes the two numbers out of a `coord_2d::Coord`, which are its public
/// fields `x` and `y`: the coordinate is the one that `coord_2d::Coord::new`
/// makes of them, and of no other two.
#[verifier::external_body]
pub(crate) fn coord_from_outside(coord: coord_2d::Coord) -> (r: Coordinate)
    ensures
        coord == outside_coord(r.x, r.y),
        forall|x: i32, y: i32| coord == #[trigger] outside_coord(x, y) ==> r.x == x && r.y == y,
{
    Coordinate { x: coord.x, y: coord.y }
}

/// Makes the `coord_2d::Size` of a width and a height with
/// `coord_2d::Size::new`, which takes every dimension up to 2^31.
#[verifier::external_body]
pub(crate) fn size_to_outside(size: GridSize) -> (r: coord_2d::Size)
    requires
        size.valid(),
    ensures
        r == outside_size(size.width, size.height),
{
    coord_2d::Size::new(size.width, size.height)
}

} // verus!
