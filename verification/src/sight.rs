//! Whether one actor can perceive another: a probe along the straight line
//! between them, which loses to each cell what that cell is opaque by.

use vstd::prelude::*;
use crate::geometry::Coordinate;
use crate::world::World;

verus! {

/// How far an autonomous actor perceives, in cells of the line.
pub const NPC_VISION_RANGE: usize = 16;

/// The cells of the straight line from `(ax, ay)` to another cell
/// `(bx, by)`, in the order in which `line_2d` walks them, without the
/// first where `exclude_start` is set and without the last where
/// `exclude_end` is.
pub uninterp spec fn line_points(
    ax: i32,
    ay: i32,
    bx: i32,
    by: i32,
    exclude_start: bool,
    exclude_end: bool,
) -> Seq<Coordinate>;

/// How many cells the line from `a` to another cell `b` has: one more than
/// the greater of the two differences, less the ends that are left out.
pub open spec fn line_length(a: Coordinate, b: Coordinate, exclude_start: bool, exclude_end: bool)
    -> int {
    let start: int = if exclude_start {
        1
    } else {
        0
    };
    let end: int = if exclude_end {
        1
    } else {
        0
    };
    a.line_steps_spec(b) - start - end
}

/// Walks a `line_2d::LineSegment` from `a` to `b` with its `config_iter`
/// and collects the cells. The two ends differ, since a segment cannot be
/// made of one cell, and lie within a range in which their difference is an
/// `i32`. The contract gives the sequence its name, and states how many
/// cells it has.
#[verifier::external_body]
pub(crate) fn line_between(a: Coordinate, b: Coordinate, exclude_start: bool, exclude_end: bool)
    -> (line: Vec<Coordinate>)
    requires
        a != b,
        -0x2000_0000 <= a.x <= 0x2000_0000,
        -0x2000_0000 <= a.y <= 0x2000_0000,
        -0x2000_0000 <= b.x <= 0x2000_0000,
        -0x2000_0000 <= b.y <= 0x2000_0000,
    ensures
        line@ == line_points(a.x, a.y, b.x, b.y, exclude_start, exclude_end),
        line@.len() == line_length(a, b, exclude_start, exclude_end),
{
    let from = coord_2d::Coord::new(a.x, a.y);
    let to = coord_2d::Coord::new(b.x, b.y);
    let config = line_2d::Config { exclude_start, exclude_end };
    let line = line_2d::LineSegment::new(from, to).config_iter(config);
    line.map(|c| Coordinate::new(c.x, c.y)).collect()
}

/// The cells that a probe from `a` to `b` passes, both inside the world:
/// the one cell where they are the same, and the line between them else.
pub open spec fn probe_line(a: Coordinate, b: Coordinate) -> Seq<Coordinate> {
    if a == b {
        seq![a]
    } else {
        line_points(a.x, a.y, b.x, b.y, false, false)
    }
}

/// What is left of `before` behind something opaque by `opacity`.
pub open spec fn dimmed(before: u8, opacity: u8) -> u8 {
    if before >= opacity {
        (before - opacity) as u8
    } else {
        0u8
    }
}

/// The opacity that a probe meets at `coord`: that of the cell, and all
/// outside the world.
pub open spec fn probe_opacity(world: &World, coord: Coordinate) -> u8 {
    if world.size_spec().contains_spec(coord) {
        world.opacity_at(coord)
    } else {
        255u8
    }
}

/// What is left of a visibility of 255 behind the cells of `line`.
pub open spec fn visibility_behind(world: &World, line: Seq<Coordinate>) -> u8
    decreases line.len(),
{
    if line.len() == 0 {
        255u8
    } else {
        dimmed(visibility_behind(world, line.drop_last()), probe_opacity(world, line.last()))
    }
}

/// Whether a probe from `a` reaches `b`: both lie inside the world, the
/// line between them has no more than `max_distance` cells, and the cells of
/// the line, its ends included, leave some visibility.
pub open spec fn can_see_spec(world: &World, a: Coordinate, b: Coordinate, max_distance: usize)
    -> bool {
    &&& world.size_spec().contains_spec(a)
    &&& world.size_spec().contains_spec(b)
    &&& a.line_steps_spec(b) <= max_distance
    &&& visibility_behind(world, probe_line(a, b)) > 0
}

impl World {
    /// Whether a probe from `a` reaches `b`.
    pub fn can_see(&self, a: Coordinate, b: Coordinate, max_distance: usize) -> (r: bool)
        requires
            self.wf(),
        ensures
            r == can_see_spec(self, a, b, max_distance),
    {
        let size = self.size();
        if !size.contains(a) || !size.contains(b) {
            return false;
        }
        if a.line_steps(b) > max_distance as u64 {
            return false;
        }
        let line = if a == b {
            let mut one = Vec::new();
            one.push(a);
            assert(one@ =~= seq![a]);
            one
        } else {
            line_between(a, b, false, false)
        };
        visibility_along(self, &line) > 0
    }
}

/// What is left of a visibility of 255 behind the cells of `line`.
pub fn visibility_along(world: &World, line: &Vec<Coordinate>) -> (r: u8)
    requires
        world.wf(),
    ensures
        r == visibility_behind(world, line@),
{
    let mut visibility: u8 = 255;
    let mut k: usize = 0;
    while k < line.len()
        invariant
            k <= line@.len(),
            world.wf(),
            visibility == visibility_behind(world, line@.take(k as int)),
        decreases line@.len() - k,
    {
        proof {
            assert(line@.take(k + 1).drop_last() == line@.take(k as int));
            assert(line@.take(k + 1).last() == line@[k as int]);
        }
        let opacity = world.opacity_checked(line[k]);
        visibility = if visibility >= opacity {
            visibility - opacity
        } else {
            0
        };
        k += 1;
    }
    proof {
        assert(line@.take(k as int) == line@);
    }
    visibility
}

} // verus!
