//! What each autonomous actor means to do in its turn.

use vstd::prelude::*;
use crate::entity::{Entity, ForegroundTile};
use crate::geometry::Coordinate;
use crate::pathfinding::{CommitmentType, CommittedAction};
use crate::sight::{can_see_spec, line_between, line_points, NPC_VISION_RANGE};
use crate::world::World;

verus! {

/// How far around it a healer looks for the wounded, in steps.
pub const HEAL_SEARCH_RANGE: u32 = 8;

/// How far a caster casts, in steps.
pub const CAST_RANGE: u32 = 8;

/// Whether `e` has fewer hit points than it can have.
pub open spec fn wounded(e: Entity) -> bool {
    match e.hit_points {
        Some(hp) => hp.current < hp.max,
        None => false,
    }
}

/// Whether `e` has fewer hit points than it can have.
pub fn is_wounded(e: &Entity) -> (r: bool)
    ensures
        r == wounded(*e),
{
    match e.hit_points {
        Some(hp) => hp.current < hp.max,
        None => false,
    }
}

/// Whether `e` is a wounded autonomous actor within a healer's search from `from`.
pub open spec fn needs_healer(e: Entity, from: Coordinate) -> bool {
    e.npc && from.manhattan_distance_spec(e.coord) < HEAL_SEARCH_RANGE && wounded(e)
}

/// Whether a wounded autonomous actor is fewer than
/// [`HEAL_SEARCH_RANGE`] steps from `from`.
pub open spec fn someone_to_heal_spec(world: &World, from: Coordinate) -> bool {
    exists|j: int|
        0 <= j < world.entities_spec().len() && needs_healer(
            #[trigger] world.entities_spec()[j],
            from,
        )
}

pub fn someone_to_heal(world: &World, from: Coordinate) -> (r: bool)
    ensures
        r == someone_to_heal_spec(world, from),
{
    let entities = world.entities();
    let mut j: usize = 0;
    while j < entities.len()
        invariant
            j <= entities@.len(),
            entities@ == world.entities_spec(),
            forall|k: int| 0 <= k < j ==> !needs_healer(#[trigger] entities@[k], from),
        decreases entities@.len() - j,
    {
        let e = entities[j];
        if e.npc && from.manhattan_distance(e.coord) < HEAL_SEARCH_RANGE as u64 && is_wounded(&e) {
            assert(needs_healer(world.entities_spec()[j as int], from));
            return true;
        }
        j += 1;
    }
    false
}

/// Whether the cell at `c` lets a shot pass: it lies outside the world, or
/// is neither solid nor held by an autonomous actor.
pub open spec fn passes(world: &World, c: Coordinate) -> bool {
    world.size_spec().contains_spec(c) ==> !world.cell_spec(c).contains_npc_spec()
        && !world.solid_at(c)
}

/// Whether every cell of `line` lets a shot pass.
pub open spec fn clean_along(world: &World, line: Seq<Coordinate>) -> bool {
    forall|k: int| 0 <= k < line.len() ==> passes(world, #[trigger] line[k])
}

/// The cells that a shot from `a` to `b` passes: those of the line between
/// them without its two ends, and none where they are the same cell.
pub open spec fn shot_line(a: Coordinate, b: Coordinate) -> Seq<Coordinate> {
    if a == b {
        Seq::empty()
    } else {
        line_points(a.x, a.y, b.x, b.y, true, true)
    }
}

/// Whether nothing stands in the way of a shot from `a` to `b`: no cell
/// that it passes is solid or holds an autonomous actor.
pub open spec fn clean_shot_spec(world: &World, a: Coordinate, b: Coordinate) -> bool {
    clean_along(world, shot_line(a, b))
}

/// Whether the cell at `c` lets a shot pass.
fn lets_pass(world: &World, c: Coordinate) -> (r: bool)
    requires
        world.wf(),
    ensures
        r == passes(world, c),
{
    match world.cell(c) {
        Some(cell) => !cell.contains_npc() && !cell.is_solid(),
        None => true,
    }
}

/// Whether every cell of `line` lets a shot pass.
pub fn is_clean_along(world: &World, line: &Vec<Coordinate>) -> (r: bool)
    requires
        world.wf(),
    ensures
        r == clean_along(world, line@),
{
    let mut k: usize = 0;
    while k < line.len()
        invariant
            k <= line@.len(),
            world.wf(),
            forall|j: int| 0 <= j < k ==> passes(world, #[trigger] line@[j]),
        decreases line@.len() - k,
    {
        if !lets_pass(world, line[k]) {
            return false;
        }
        k += 1;
    }
    true
}

/// Whether nothing stands in the way of a shot from `a` to `b`, both
/// inside the world.
pub fn clean_shot(world: &World, a: Coordinate, b: Coordinate) -> (r: bool)
    requires
        world.wf(),
        world.size_spec().contains_spec(a),
        world.size_spec().contains_spec(b),
    ensures
        r == clean_shot_spec(world, a, b),
{
    if a == b {
        true
    } else {
        let line = line_between(a, b, true, true);
        is_clean_along(world, &line)
    }
}

/// Whether `npc` is a caster that stands in the row or the column of
/// `player_coord`, fewer than [`CAST_RANGE`] steps from it.
pub open spec fn in_cast_line(npc: Entity, player_coord: Coordinate) -> bool {
    npc.foreground_tile == Some(ForegroundTile::Caster) && (npc.coord.x == player_coord.x
        || npc.coord.y == player_coord.y) && npc.coord.manhattan_distance_spec(player_coord)
        < CAST_RANGE
}

/// Whether `npc` is a healer that has not started to count down.
pub open spec fn idle_healer(npc: Entity) -> bool {
    npc.foreground_tile == Some(ForegroundTile::Healer) && npc.heal_countdown.is_none()
}

/// What an autonomous actor means to do, if anything, given whether it
/// perceives the player (`sees`), whether its shot at the player is clean
/// (`clean`) and whether someone near it is wounded (`wounded_near`):
/// nothing unless it perceives the player; a caster in line with the player
/// casts where its shot is clean; a healer counts down once it has started
/// to, and starts to where someone near it is wounded; every other actor,
/// and these two otherwise, moves.
pub open spec fn intent_of(
    npc: Entity,
    player_coord: Coordinate,
    sees: bool,
    clean: bool,
    wounded_near: bool,
) -> Option<CommitmentType> {
    if !sees {
        None
    } else if in_cast_line(npc, player_coord) {
        if clean {
            Some(CommitmentType::Cast)
        } else {
            Some(CommitmentType::Move)
        }
    } else if npc.foreground_tile == Some(ForegroundTile::Healer) {
        match npc.heal_countdown {
            Some(countdown) => if countdown > 0 {
                Some(CommitmentType::Heal((countdown - 1) as u32))
            } else {
                None
            },
            None => if wounded_near {
                Some(CommitmentType::Heal(3))
            } else {
                Some(CommitmentType::Move)
            },
        }
    } else {
        Some(CommitmentType::Move)
    }
}

/// What an autonomous actor means to do this turn, if anything: see
/// [`intent_of`].
pub open spec fn npc_intent(world: &World, npc: Entity, player_coord: Coordinate) -> Option<
    CommitmentType,
> {
    intent_of(
        npc,
        player_coord,
        can_see_spec(world, npc.coord, player_coord, NPC_VISION_RANGE),
        clean_shot_spec(world, npc.coord, player_coord),
        someone_to_heal_spec(world, npc.coord),
    )
}

/// Whether `npc` is a caster that stands in the row or the column of
/// `player_coord`, fewer than [`CAST_RANGE`] steps from it.
pub fn is_in_cast_line(npc: &Entity, player_coord: Coordinate) -> (r: bool)
    ensures
        r == in_cast_line(*npc, player_coord),
{
    let is_caster = match npc.foreground_tile {
        Some(ForegroundTile::Caster) => true,
        _ => false,
    };
    is_caster && (npc.coord.x == player_coord.x || npc.coord.y == player_coord.y)
        && npc.coord.manhattan_distance(player_coord) < CAST_RANGE as u64
}

/// Whether `npc` is a healer that has not started to count down.
pub fn is_idle_healer(npc: &Entity) -> (r: bool)
    ensures
        r == idle_healer(*npc),
{
    let is_healer = match npc.foreground_tile {
        Some(ForegroundTile::Healer) => true,
        _ => false,
    };
    is_healer && npc.heal_countdown.is_none()
}

/// What an autonomous actor means to do, given what it perceives: see
/// [`intent_of`].
pub fn decide(npc: &Entity, player_coord: Coordinate, sees: bool, clean: bool, wounded_near: bool)
    -> (r: Option<CommitmentType>)
    ensures
        r == intent_of(*npc, player_coord, sees, clean, wounded_near),
{
    let is_healer = match npc.foreground_tile {
        Some(ForegroundTile::Healer) => true,
        _ => false,
    };
    if !sees {
        None
    } else if is_in_cast_line(npc, player_coord) {
        if clean {
            Some(CommitmentType::Cast)
        } else {
            Some(CommitmentType::Move)
        }
    } else if is_healer {
        match npc.heal_countdown {
            Some(countdown) => if countdown > 0 {
                Some(CommitmentType::Heal(countdown - 1))
            } else {
                None
            },
            None => if wounded_near {
                Some(CommitmentType::Heal(3))
            } else {
                Some(CommitmentType::Move)
            },
        }
    } else {
        Some(CommitmentType::Move)
    }
}

/// What an autonomous actor means to do this turn. It looks for a clean
/// shot only where it perceives the player and stands in line with them,
/// and for the wounded only where it perceives the player and is a healer
/// that has not started to count down.
pub fn intent(world: &World, npc: Entity, player_coord: Coordinate) -> (r: Option<CommitmentType>)
    requires
        world.wf(),
    ensures
        r == npc_intent(world, npc, player_coord),
{
    let sees = world.can_see(npc.coord, player_coord, NPC_VISION_RANGE);
    let clean = sees && is_in_cast_line(&npc, player_coord) && clean_shot(
        world,
        npc.coord,
        player_coord,
    );
    let wounded_near = sees && is_idle_healer(&npc) && someone_to_heal(world, npc.coord);
    decide(&npc, player_coord, sees, clean, wounded_near)
}

/// Whether `action` is what its actor, which `world` has, means to do.
pub open spec fn intends(world: &World, player_coord: Coordinate, action: CommittedAction) -> bool {
    world.entity_spec(action.0).is_some() && npc_intent(
        world,
        world.entity_spec(action.0).unwrap(),
        player_coord,
    ) == Some(action.2)
}

} // verus!
