//! Coordinates, sizes and compass directions of the tile grid.

use vstd::prelude::*;

verus! {

/// The largest width or height a grid may have.
///
/// The sweep and search engines compute with `i32` products of about four
/// times the square of a dimension, so larger grids are not admitted.
pub const MAX_DIMENSION: u32 = 16384;

/// A cell position. `x` grows to the east, `y` grows to the south.
#[derive(Clone, Copy, Debug, PartialEq, Eq, Structural)]
pub struct Coordinate {
    pub x: i32,
    pub y: i32,
}

/// The extent of a grid.
#[derive(Clone, Copy, Debug, PartialEq, Eq, Structural)]
pub struct GridSize {
    pub width: u32,
    pub height: u32,
}

/// One of the four directions an actor can step in, in their fixed
/// enumeration order: north, east, south, west.
#[derive(Clone, Copy, Debug, PartialEq, Eq, Structural)]
pub enum CardinalDirection {
    North,
    East,
    South,
    West,
}

/// One of the eight compass directions, clockwise from north.
#[derive(Clone, Copy, Debug, PartialEq, Eq, Structural)]
pub enum Direction {
    North,
    NorthEast,
    East,
    SouthEast,
    South,
    SouthWest,
    West,
    NorthWest,
}

/// A set of compass directions, one bit per direction: bit 0 is north and
/// the others follow clockwise.
#[derive(Clone, Copy, Debug, PartialEq, Eq, Structural)]
pub struct DirectionBitmap {
    pub raw: u8,
}

pub open spec fn abs_diff(a: int, b: int) -> int {
    if a >= b {
        a - b
    } else {
        b - a
    }
}

impl CardinalDirection {
    pub open spec fn dx(self) -> int {
        match self {
            CardinalDirection::North => 0,
            CardinalDirection::East => 1,
            CardinalDirection::South => 0,
            CardinalDirection::West => -1,
        }
    }

    pub open spec fn dy(self) -> int {
        match self {
            CardinalDirection::North => -1,
            CardinalDirection::East => 0,
            CardinalDirection::South => 1,
            CardinalDirection::West => 0,
        }
    }

    pub open spec fn direction_spec(self) -> Direction {
        match self {
            CardinalDirection::North => Direction::North,
            CardinalDirection::East => Direction::East,
            CardinalDirection::South => Direction::South,
            CardinalDirection::West => Direction::West,
        }
    }

    /// The same direction among the eight.
    pub fn direction(self) -> (r: Direction)
        ensures
            r == self.direction_spec(),
    {
        match self {
            CardinalDirection::North => Direction::North,
            CardinalDirection::East => Direction::East,
            CardinalDirection::South => Direction::South,
            CardinalDirection::West => Direction::West,
        }
    }

    pub open spec fn opposite_spec(self) -> CardinalDirection {
        match self {
            CardinalDirection::North => CardinalDirection::South,
            CardinalDirection::East => CardinalDirection::West,
            CardinalDirection::South => CardinalDirection::North,
            CardinalDirection::West => CardinalDirection::East,
        }
    }

    pub fn opposite(self) -> (r: CardinalDirection)
        ensures
            r == self.opposite_spec(),
    {
        match self {
            CardinalDirection::North => CardinalDirection::South,
            CardinalDirection::East => CardinalDirection::West,
            CardinalDirection::South => CardinalDirection::North,
            CardinalDirection::West => CardinalDirection::East,
        }
    }
}

impl Direction {
    pub open spec fn cardinal_spec(self) -> Option<CardinalDirection> {
        match self {
            Direction::North => Some(CardinalDirection::North),
            Direction::East => Some(CardinalDirection::East),
            Direction::South => Some(CardinalDirection::South),
            Direction::West => Some(CardinalDirection::West),
            _ => None,
        }
    }

    /// The cardinal direction this is, if it is one.
    pub fn cardinal(self) -> (r: Option<CardinalDirection>)
        ensures
            r == self.cardinal_spec(),
    {
        match self {
            Direction::North => Some(CardinalDirection::North),
            Direction::East => Some(CardinalDirection::East),
            Direction::South => Some(CardinalDirection::South),
            Direction::West => Some(CardinalDirection::West),
            _ => None,
        }
    }

    pub open spec fn bit_spec(self) -> u8 {
        match self {
            Direction::North => 1,
            Direction::NorthEast => 2,
            Direction::East => 4,
            Direction::SouthEast => 8,
            Direction::South => 16,
            Direction::SouthWest => 32,
            Direction::West => 64,
            Direction::NorthWest => 128,
        }
    }

    /// The bitmap that holds this direction alone.
    pub fn bitmap(self) -> (r: DirectionBitmap)
        ensures
            r.raw == self.bit_spec(),
    {
        let raw: u8 = match self {
            Direction::North => 1,
            Direction::NorthEast => 2,
            Direction::East => 4,
            Direction::SouthEast => 8,
            Direction::South => 16,
            Direction::SouthWest => 32,
            Direction::West => 64,
            Direction::NorthWest => 128,
        };
        DirectionBitmap { raw }
    }
}

impl DirectionBitmap {
    pub fn new(raw: u8) -> (r: DirectionBitmap)
        ensures
            r.raw == raw,
    {
        DirectionBitmap { raw }
    }

    pub fn empty() -> (r: DirectionBitmap)
        ensures
            r.raw == 0,
    {
        DirectionBitmap { raw: 0 }
    }

    pub fn all() -> (r: DirectionBitmap)
        ensures
            r.raw == 0xff,
    {
        DirectionBitmap { raw: 0xff }
    }

    pub fn is_empty(self) -> (r: bool)
        ensures
            r == (self.raw == 0),
    {
        self.raw == 0
    }

    /// Whether the two sets share a direction.
    pub open spec fn overlaps(self, other: DirectionBitmap) -> bool {
        self.raw & other.raw != 0
    }

    pub fn and(self, other: DirectionBitmap) -> (r: DirectionBitmap)
        ensures
            r.raw == self.raw & other.raw,
    {
        DirectionBitmap { raw: self.raw & other.raw }
    }

    pub fn or(self, other: DirectionBitmap) -> (r: DirectionBitmap)
        ensures
            r.raw == self.raw | other.raw,
    {
        DirectionBitmap { raw: self.raw | other.raw }
    }

    pub fn has(self, direction: Direction) -> (r: bool)
        ensures
            r == (self.raw & direction.bit_spec() != 0),
    {
        self.raw & direction.bitmap().raw != 0
    }
}

impl Coordinate {
    pub fn new(x: i32, y: i32) -> (r: Coordinate)
        ensures
            r.x == x,
            r.y == y,
    {
        Coordinate { x, y }
    }

    /// The neighbouring position one step in `direction`, where that
    /// position exists in `i32` coordinates.
    pub open spec fn step_spec(self, direction: CardinalDirection) -> Option<Coordinate> {
        let x = self.x + direction.dx();
        let y = self.y + direction.dy();
        if i32::MIN <= x <= i32::MAX && i32::MIN <= y <= i32::MAX {
            Some(Coordinate { x: x as i32, y: y as i32 })
        } else {
            None
        }
    }

    pub fn step(self, direction: CardinalDirection) -> (r: Option<Coordinate>)
        ensures
            r == self.step_spec(direction),
    {
        match direction {
            CardinalDirection::North => if self.y > i32::MIN {
                Some(Coordinate { x: self.x, y: self.y - 1 })
            } else {
                None
            },
            CardinalDirection::East => if self.x < i32::MAX {
                Some(Coordinate { x: self.x + 1, y: self.y })
            } else {
                None
            },
            CardinalDirection::South => if self.y < i32::MAX {
                Some(Coordinate { x: self.x, y: self.y + 1 })
            } else {
                None
            },
            CardinalDirection::West => if self.x > i32::MIN {
                Some(Coordinate { x: self.x - 1, y: self.y })
            } else {
                None
            },
        }
    }

    /// The sum of the horizontal and the vertical distance to `other`.
    pub open spec fn manhattan_distance_spec(self, other: Coordinate) -> int {
        abs_diff(self.x as int, other.x as int) + abs_diff(self.y as int, other.y as int)
    }

    pub fn manhattan_distance(self, other: Coordinate) -> (r: u64)
        ensures
            r == self.manhattan_distance_spec(other),
    {
        let dx: i64 = self.x as i64 - other.x as i64;
        let dy: i64 = self.y as i64 - other.y as i64;
        let ax: u64 = if dx >= 0 { dx as u64 } else { (-dx) as u64 };
        let ay: u64 = if dy >= 0 { dy as u64 } else { (-dy) as u64 };
        ax + ay
    }

    /// The square of the straight-line distance to `other`.
    pub open spec fn distance_squared_spec(self, other: Coordinate) -> int {
        (self.x - other.x) * (self.x - other.x) + (self.y - other.y) * (self.y - other.y)
    }

    pub fn distance_squared(self, other: Coordinate) -> (r: u128)
        ensures
            r == self.distance_squared_spec(other),
    {
        let dx: i64 = self.x as i64 - other.x as i64;
        let dy: i64 = self.y as i64 - other.y as i64;
        let ax: u128 = if dx >= 0 { dx as u128 } else { (-dx) as u128 };
        let ay: u128 = if dy >= 0 { dy as u128 } else { (-dy) as u128 };
        assert(ax * ax == dx * dx) by (nonlinear_arith)
            requires
                ax == dx || ax == -dx,
        ;
        assert(ay * ay == dy * dy) by (nonlinear_arith)
            requires
                ay == dy || ay == -dy,
        ;
        assert(ax * ax <= 0xffff_ffff * 0xffff_ffff) by (nonlinear_arith)
            requires
                ax <= 0xffff_ffff,
        ;
        assert(ay * ay <= 0xffff_ffff * 0xffff_ffff) by (nonlinear_arith)
            requires
                ay <= 0xffff_ffff,
        ;
        ax * ax + ay * ay
    }

    /// The number of cells on the straight line from here to `other`, both
    /// ends counted.
    pub open spec fn line_steps_spec(self, other: Coordinate) -> int {
        let dx = abs_diff(self.x as int, other.x as int);
        let dy = abs_diff(self.y as int, other.y as int);
        if dx >= dy {
            dx + 1
        } else {
            dy + 1
        }
    }

    pub fn line_steps(self, other: Coordinate) -> (r: u64)
        ensures
            r == self.line_steps_spec(other),
    {
        let dx: i64 = self.x as i64 - other.x as i64;
        let dy: i64 = self.y as i64 - other.y as i64;
        let ax: u64 = if dx >= 0 { dx as u64 } else { (-dx) as u64 };
        let ay: u64 = if dy >= 0 { dy as u64 } else { (-dy) as u64 };
        if ax >= ay {
            ax + 1
        } else {
            ay + 1
        }
    }
}

impl GridSize {
    /// Whether neither dimension exceeds [`MAX_DIMENSION`].
    pub open spec fn valid(self) -> bool {
        self.width <= MAX_DIMENSION && self.height <= MAX_DIMENSION
    }

    pub fn new(width: u32, height: u32) -> (r: GridSize)
        ensures
            r.width == width,
            r.height == height,
    {
        GridSize { width, height }
    }

    pub fn is_valid(self) -> (r: bool)
        ensures
            r == self.valid(),
    {
        self.width <= MAX_DIMENSION && self.height <= MAX_DIMENSION
    }

    /// Whether a grid of this size can be made: neither dimension exceeds
    /// [`MAX_DIMENSION`], and a grid without columns has no rows either.
    pub open spec fn buildable(self) -> bool {
        self.valid() && (self.width > 0 || self.height == 0)
    }

    pub fn is_buildable(self) -> (r: bool)
        ensures
            r == self.buildable(),
    {
        self.is_valid() && (self.width > 0 || self.height == 0)
    }

    /// Whether `coord` lies inside a grid of this size.
    pub open spec fn contains_spec(self, coord: Coordinate) -> bool {
        0 <= coord.x < self.width && 0 <= coord.y < self.height
    }

    pub fn contains(self, coord: Coordinate) -> (r: bool)
        ensures
            r == self.contains_spec(coord),
    {
        coord.x >= 0 && coord.y >= 0 && (coord.x as u32) < self.width && (coord.y as u32)
            < self.height
    }

    /// The number of cells.
    pub open spec fn area(self) -> int {
        self.width * self.height
    }

    /// The row-major position of `coord` among the cells.
    pub open spec fn index_of(self, coord: Coordinate) -> int {
        coord.y * self.width + coord.x
    }

    /// The coordinate of the cell at row-major position `i`.
    pub open spec fn coord_at(self, i: int) -> Coordinate {
        Coordinate { x: (i % (self.width as int)) as i32, y: (i / (self.width as int)) as i32 }
    }

    /// A coordinate inside the grid has its index below the area, and the
    /// index determines the coordinate.
    pub proof fn lemma_index_in_range(self, coord: Coordinate)
        requires
            self.contains_spec(coord),
        ensures
            0 <= self.index_of(coord) < self.area(),
            self.coord_at(self.index_of(coord)) == coord,
    {
        let w = self.width as int;
        let h = self.height as int;
        let x = coord.x as int;
        let y = coord.y as int;
        assert(y * w + x < h * w) by (nonlinear_arith)
            requires
                0 <= x < w,
                0 <= y < h,
        ;
        assert(0 <= y * w) by (nonlinear_arith)
            requires
                0 <= y,
                0 <= w,
        ;
        assert((y * w + x) % w == x && (y * w + x) / w == y) by (nonlinear_arith)
            requires
                0 <= x < w,
                0 <= y,
        ;
    }

    /// Every index below the area is the index of one coordinate inside the grid.
    pub proof fn lemma_coord_at_in_range(self, i: int)
        requires
            self.valid(),
            0 <= i < self.area(),
        ensures
            self.contains_spec(self.coord_at(i)),
            self.index_of(self.coord_at(i)) == i,
    {
        let w = self.width as int;
        let h = self.height as int;
        assert(w > 0) by (nonlinear_arith)
            requires
                0 <= i < w * h,
                w >= 0,
                h >= 0,
        ;
        assert(0 <= i % w < w && 0 <= i / w < h && (i / w) * w + i % w == i) by (nonlinear_arith)
            requires
                0 <= i < w * h,
                w > 0,
        ;
    }

    /// Two coordinates inside the grid with the same index are the same.
    pub proof fn lemma_index_injective(self, a: Coordinate, b: Coordinate)
        requires
            self.contains_spec(a),
            self.contains_spec(b),
            self.index_of(a) == self.index_of(b),
        ensures
            a == b,
    {
        self.lemma_index_in_range(a);
        self.lemma_index_in_range(b);
    }

    /// The row-major index of a coordinate inside the grid.
    pub fn index(self, coord: Coordinate) -> (r: Option<usize>)
        requires
            self.valid(),
        ensures
            r.is_some() == self.contains_spec(coord),
            r.is_some() ==> r.unwrap() == self.index_of(coord) && r.unwrap() < self.area(),
    {
        if self.contains(coord) {
            proof {
                self.lemma_index_in_range(coord);
                assert(self.width * self.height <= 16384 * 16384) by (nonlinear_arith)
                    requires
                        self.width <= 16384,
                        self.height <= 16384,
                ;
            }
            let i: u32 = coord.y as u32 * self.width + coord.x as u32;
            Some(i as usize)
        } else {
            None
        }
    }
}

} // verus!
