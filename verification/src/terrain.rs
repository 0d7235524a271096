//! The description of a level: its size, where the player starts, and the
//! instructions that build its world.

use vstd::prelude::*;
use crate::colour::Rgb24;
use crate::entity::{BackgroundTile, ForegroundTile, PackedEntity, PackedLight, Rational};
use crate::geometry::{Coordinate, GridSize, MAX_DIMENSION};
use crate::world::{Instruction, World};

verus! {

/// What a level is built from.
pub struct TerrainDescription {
    pub player_coord: Coordinate,
    pub size: GridSize,
    pub instructions: Vec<Instruction>,
}

/// Whether `instruction` can be carried out in a world of `size`: terrain
/// is set inside the grid only.
pub open spec fn instruction_fits(instruction: Instruction, size: GridSize) -> bool {
    match instruction {
        Instruction::SetBackground(coord, _) => size.contains_spec(coord),
        Instruction::AddEntity(_, _) => true,
    }
}

/// Whether `after` is `before` after `instruction` has been carried out.
pub open spec fn instructed(before: &World, after: &World, instruction: Instruction) -> bool {
    match instruction {
        Instruction::SetBackground(coord, tile) => after.paved(before, coord, tile),
        Instruction::AddEntity(coord, packed) => after.added(before, coord, packed),
    }
}

/// Whether `worlds` are the worlds before, between and after the
/// `instructions`, each carried out in its turn.
pub open spec fn built(worlds: Seq<World>, instructions: Seq<Instruction>) -> bool {
    &&& worlds.len() == instructions.len() + 1
    &&& forall|k: int|
        0 <= k < instructions.len() ==> instructed(
            &worlds[k],
            &worlds[k + 1],
            #[trigger] instructions[k],
        )
}

impl TerrainDescription {
    pub fn new(player_coord: Coordinate, size: GridSize, instructions: Vec<Instruction>) -> (r:
        TerrainDescription)
        ensures
            r.player_coord == player_coord,
            r.size == size,
            r.instructions == instructions,
    {
        TerrainDescription { player_coord, size, instructions }
    }

    /// Whether a world can be built from the description: a grid of the
    /// size can be made, every instruction fits it, and there are fewer
    /// instructions than identities.
    pub open spec fn wf(&self) -> bool {
        &&& self.size.buildable()
        &&& self.instructions@.len() < 0xffff_ffff
        &&& forall|i: int|
            0 <= i < self.instructions@.len() ==> instruction_fits(
                #[trigger] self.instructions@[i],
                self.size,
            )
    }

    /// Whether a world can be built from the description.
    pub fn is_wf(&self) -> (r: bool)
        ensures
            r == self.wf(),
    {
        if !self.size.is_buildable() || self.instructions.len() >= 0xffff_ffff {
            return false;
        }
        let mut i: usize = 0;
        while i < self.instructions.len()
            invariant
                i <= self.instructions@.len(),
                forall|j: int|
                    0 <= j < i ==> instruction_fits(#[trigger] self.instructions@[j], self.size),
            decreases self.instructions@.len() - i,
        {
            let fits = match self.instructions[i] {
                Instruction::SetBackground(coord, _) => self.size.contains(coord),
                Instruction::AddEntity(_, _) => true,
            };
            if !fits {
                return false;
            }
            i += 1;
        }
        true
    }
}

/// The description of an empty level of `size` with the player at the origin.
pub fn wfc_forrest(size: GridSize) -> (r: TerrainDescription)
    ensures
        r.player_coord == (Coordinate { x: 0, y: 0 }),
        r.size == size,
        r.instructions@ == Seq::<Instruction>::empty(),
{
    TerrainDescription::new(Coordinate::new(0, 0), size, Vec::new())
}

/// The light that a lamp of `colour` gives: no channel below 10, a reach
/// of 90 in squared distance, and the usual falloff.
pub open spec fn lamp_spec(colour: Rgb24) -> PackedEntity {
    PackedEntity {
        light: Some(
            PackedLight {
                colour: Rgb24 {
                    r: if colour.r < 10 {
                        10
                    } else {
                        colour.r
                    },
                    g: if colour.g < 10 {
                        10
                    } else {
                        colour.g
                    },
                    b: if colour.b < 10 {
                        10
                    } else {
                        colour.b
                    },
                },
                range_squared: 90,
                diminish: Rational { num: 1, denom: 10 },
            },
        ),
        ..PackedEntity::default_spec()
    }
}

fn lamp(colour: Rgb24) -> (r: PackedEntity)
    ensures
        r == lamp_spec(colour),
{
    let floor = Rgb24::new(
        if colour.r < 10 {
            10
        } else {
            colour.r
        },
        if colour.g < 10 {
            10
        } else {
            colour.g
        },
        if colour.b < 10 {
            10
        } else {
            colour.b
        },
    );
    PackedEntity {
        foreground_tile: None,
        light: Some(PackedLight::new(floor, 90, Rational::new(1, 10))),
        npc: false,
        player: false,
        interactive: false,
        hit_points: None,
        remaining_turns: None,
        solid: false,
    }
}

/// The terrain that a character of a level's text stands for, if it
/// stands for any.
pub open spec fn background_of(ch: char) -> Option<BackgroundTile> {
    if ch == '.' || ch == '@' || ch == 'd' || ch == 'c' || ch == 'h' || ch == '1' || ch == '2'
        || ch == '3' || ch == 'f' || ch == 'a' || ch == 'p' {
        Some(BackgroundTile::Floor)
    } else if ch == ',' || ch == '&' || ch == '%' {
        Some(BackgroundTile::Ground)
    } else if ch == '#' || ch == '$' || ch == '?' {
        Some(BackgroundTile::IceWall)
    } else {
        None
    }
}

/// The entity that a character of a level's text puts on its cell, if it
/// puts one there. The player is no such entity: the level only says where
/// the player starts.
pub open spec fn entity_of(ch: char) -> Option<PackedEntity> {
    if ch == '&' || ch == '%' {
        Some(
            PackedEntity {
                foreground_tile: Some(ForegroundTile::Tree),
                ..PackedEntity::default_spec()
            },
        )
    } else if ch == 'd' {
        Some(PackedEntity::npc_spec(ForegroundTile::Bumper, 2, 3))
    } else if ch == 'c' {
        Some(PackedEntity::npc_spec(ForegroundTile::Caster, 1, 2))
    } else if ch == 'h' {
        Some(PackedEntity::npc_spec(ForegroundTile::Healer, 1, 1))
    } else if ch == '1' {
        Some(lamp_spec(Rgb24 { r: 255, g: 0, b: 0 }))
    } else if ch == '2' {
        Some(lamp_spec(Rgb24 { r: 0, g: 255, b: 0 }))
    } else if ch == '3' {
        Some(lamp_spec(Rgb24 { r: 0, g: 0, b: 255 }))
    } else if ch == 'f' {
        Some(
            PackedEntity {
                hit_points: Some(crate::entity::HitPoints { current: 3, max: 3 }),
                interactive: true,
                ..PackedEntity::lit_spec(
                    Some(ForegroundTile::Flame),
                    Rgb24 { r: 255, g: 120, b: 0 },
                )
            },
        )
    } else if ch == 'a' {
        Some(
            PackedEntity {
                hit_points: Some(crate::entity::HitPoints { current: 1, max: 1 }),
                interactive: true,
                ..PackedEntity::lit_spec(Some(ForegroundTile::Altar), Rgb24 { r: 0, g: 200, b: 50 })
            },
        )
    } else if ch == 'p' {
        Some(
            PackedEntity {
                hit_points: Some(crate::entity::HitPoints { current: 1, max: 1 }),
                interactive: true,
                ..PackedEntity::lit_spec(
                    Some(ForegroundTile::Fountain),
                    Rgb24 { r: 50, g: 100, b: 200 },
                )
            },
        )
    } else {
        None
    }
}

fn background_for(ch: char) -> (r: Option<BackgroundTile>)
    ensures
        r == background_of(ch),
{
    if ch == '.' || ch == '@' || ch == 'd' || ch == 'c' || ch == 'h' || ch == '1' || ch == '2'
        || ch == '3' || ch == 'f' || ch == 'a' || ch == 'p' {
        Some(BackgroundTile::Floor)
    } else if ch == ',' || ch == '&' || ch == '%' {
        Some(BackgroundTile::Ground)
    } else if ch == '#' || ch == '$' || ch == '?' {
        Some(BackgroundTile::IceWall)
    } else {
        None
    }
}

fn entity_for(ch: char) -> (r: Option<PackedEntity>)
    ensures
        r == entity_of(ch),
{
    if ch == '&' || ch == '%' {
        let mut tree = PackedEntity::default();
        tree.foreground_tile = Some(ForegroundTile::Tree);
        Some(tree)
    } else if ch == 'd' {
        Some(PackedEntity::bumper())
    } else if ch == 'c' {
        Some(PackedEntity::caster())
    } else if ch == 'h' {
        Some(PackedEntity::healer())
    } else if ch == '1' {
        Some(lamp(Rgb24::new(255, 0, 0)))
    } else if ch == '2' {
        Some(lamp(Rgb24::new(0, 255, 0)))
    } else if ch == '3' {
        Some(lamp(Rgb24::new(0, 0, 255)))
    } else if ch == 'f' {
        Some(PackedEntity::flame())
    } else if ch == 'a' {
        Some(PackedEntity::altar())
    } else if ch == 'p' {
        Some(PackedEntity::fountain())
    } else {
        None
    }
}

/// The coordinate of column `x` in row `y` of a level's text, and the
/// origin where the text is too large to have one.
pub open spec fn text_coord(x: int, y: int) -> Coordinate {
    if 0 <= x <= MAX_DIMENSION && 0 <= y <= MAX_DIMENSION {
        Coordinate { x: x as i32, y: y as i32 }
    } else {
        Coordinate { x: 0, y: 0 }
    }
}

/// How far a level's text has been read.
pub struct Scanned {
    /// The column of the next character.
    pub x: int,
    /// The row of the next character, not counting empty lines.
    pub y: int,
    /// The length of the first row, once it has ended.
    pub width: Option<int>,
    pub player: Option<Coordinate>,
    pub instructions: Seq<Instruction>,
    /// Whether every character stood for something and every row that has
    /// ended was as long as the first.
    pub ok: bool,
}

/// The state after the end of a line: an empty line counts for nothing,
/// the first row sets the width, and every other row has to have it.
pub open spec fn row_ended(s: Scanned) -> Scanned {
    if s.x == 0 {
        s
    } else {
        match s.width {
            None => Scanned { x: 0, y: s.y + 1, width: Some(s.x), ..s },
            Some(w) => Scanned { x: 0, y: s.y + 1, ok: s.ok && w == s.x, ..s },
        }
    }
}

/// The state after the character `ch` of a row: its cell gets its terrain
/// and then its entity, if it has one, and `@` says where the player starts.
pub open spec fn cell_read(s: Scanned, ch: char) -> Scanned {
    let coord = text_coord(s.x, s.y);
    match background_of(ch) {
        None => Scanned { x: s.x + 1, ok: false, ..s },
        Some(tile) => {
            let terrain = s.instructions.push(Instruction::SetBackground(coord, tile));
            Scanned {
                x: s.x + 1,
                player: if ch == '@' {
                    Some(coord)
                } else {
                    s.player
                },
                instructions: match entity_of(ch) {
                    Some(entity) => terrain.push(Instruction::AddEntity(coord, entity)),
                    None => terrain,
                },
                ..s
            }
        },
    }
}

/// The state after all of `text`.
pub open spec fn scanned(text: Seq<char>) -> Scanned
    decreases text.len(),
{
    if text.len() == 0 {
        Scanned { x: 0, y: 0, width: None, player: None, instructions: Seq::empty(), ok: true }
    } else {
        let before = scanned(text.drop_last());
        if text.last() == '\n' {
            row_ended(before)
        } else {
            cell_read(before, text.last())
        }
    }
}

/// What a level's text describes: rows of cells, one line each, all of one
/// length, with the player on one of them. `None` where a character stands
/// for nothing, the rows differ in length, there is no row or no player, or
/// the level or the number of its instructions is too large.
pub open spec fn described(text: Seq<char>) -> Option<(Coordinate, GridSize, Seq<Instruction>)> {
    let s = row_ended(scanned(text));
    if s.ok && s.player.is_some() && s.width.is_some() && s.width.unwrap() <= MAX_DIMENSION && s.y
        <= MAX_DIMENSION && s.instructions.len() < 0xffff_ffff {
        Some(
            (
                s.player.unwrap(),
                GridSize { width: s.width.unwrap() as u32, height: s.y as u32 },
                s.instructions,
            ),
        )
    } else {
        None
    }
}

/// Reads the description of a level from its text: see [`described`].
pub fn from_str(text: &str) -> (r: Option<TerrainDescription>)
    ensures
        match described(text@) {
            Some((player_coord, size, instructions)) => r.is_some() && r.unwrap().player_coord
                == player_coord && r.unwrap().size == size && r.unwrap().instructions@
                == instructions,
            None => r.is_none(),
        },
{
    let n = text.unicode_len();
    let mut x: usize = 0;
    let mut y: usize = 0;
    let mut width: Option<usize> = None;
    let mut player: Option<Coordinate> = None;
    let mut instructions: Vec<Instruction> = Vec::new();
    let mut ok = true;
    let mut i: usize = 0;
    while i < n
        invariant
            i <= n,
            n == text@.len(),
            x + y <= i,
            width.is_some() ==> width.unwrap() <= i,
            scanned(text@.take(i as int)) == (Scanned {
                x: x as int,
                y: y as int,
                width: match width {
                    Some(w) => Some(w as int),
                    None => None,
                },
                player,
                instructions: instructions@,
                ok,
            }),
        decreases n - i,
    {
        proof {
            assert(text@.take(i + 1).drop_last() == text@.take(i as int));
            assert(text@.take(i + 1).last() == text@[i as int]);
        }
        let ch = text.get_char(i);
        if ch == '\n' {
            if x != 0 {
                match width {
                    None => {
                        width = Some(x);
                    },
                    Some(w) => {
                        ok = ok && w == x;
                    },
                }
                x = 0;
                y = y + 1;
            }
        } else {
            let coord = coord_in_text(x, y);
            match background_for(ch) {
                None => {
                    ok = false;
                },
                Some(tile) => {
                    instructions.push(Instruction::SetBackground(coord, tile));
                    if ch == '@' {
                        player = Some(coord);
                    }
                    match entity_for(ch) {
                        Some(entity) => {
                            instructions.push(Instruction::AddEntity(coord, entity));
                        },
                        None => {},
                    }
                },
            }
            x = x + 1;
        }
        i += 1;
    }
    proof {
        assert(text@.take(i as int) == text@);
    }
    if x != 0 {
        match width {
            None => {
                width = Some(x);
            },
            Some(w) => {
                ok = ok && w == x;
            },
        }
        y = y + 1;
    }
    match (player, width) {
        (Some(player_coord), Some(w)) => {
            if ok && w <= MAX_DIMENSION as usize && y <= MAX_DIMENSION as usize
                && instructions.len() < 0xffff_ffff {
                Some(
                    TerrainDescription::new(
                        player_coord,
                        GridSize::new(w as u32, y as u32),
                        instructions,
                    ),
                )
            } else {
                None
            }
        },
        _ => None,
    }
}

fn coord_in_text(x: usize, y: usize) -> (c: Coordinate)
    ensures
        c == text_coord(x as int, y as int),
{
    if x <= MAX_DIMENSION as usize && y <= MAX_DIMENSION as usize {
        Coordinate::new(x as i32, y as i32)
    } else {
        Coordinate::new(0, 0)
    }
}

} // verus!
