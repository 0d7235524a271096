//! Tiles, entities, lights and the cells they stand on.

use vstd::prelude::*;
use crate::colour::Rgb24;
use crate::geometry::{CardinalDirection, Coordinate};

verus! {

pub type EntityId = u64;

pub type LightId = u64;

/// A ratio of two integers.
#[derive(Clone, Copy, Debug, PartialEq, Eq, Structural)]
pub struct Rational {
    pub num: u32,
    pub denom: u32,
}

#[derive(Clone, Copy, Debug, PartialEq, Eq, Structural)]
pub struct HitPoints {
    pub current: u32,
    pub max: u32,
}

#[derive(Clone, Copy, Debug, PartialEq, Eq, Structural)]
pub enum BackgroundTile {
    Floor,
    Ground,
    IceWall,
}

#[derive(Clone, Copy, Debug, PartialEq, Eq, Structural)]
pub enum ForegroundTile {
    Block,
    Player,
    Tree,
    Stairs,
    Bumper,
    Caster,
    Healer,
    Blink0,
    Blink1,
    Flame,
    Altar,
    Fountain,
    Spark,
}

/// A point light.
#[derive(Clone, Copy, Debug, PartialEq, Eq, Structural)]
pub struct Light {
    pub coord: Coordinate,
    pub colour: Rgb24,
    /// The square of the distance the light reaches.
    pub range_squared: u32,
    /// How fast the light falls off with the squared distance.
    pub diminish: Rational,
}

/// A light without its position.
#[derive(Clone, Copy, Debug, PartialEq, Eq, Structural)]
pub struct PackedLight {
    pub colour: Rgb24,
    pub range_squared: u32,
    pub diminish: Rational,
}

/// An entity as the world holds it.
#[derive(Clone, Copy, Debug, PartialEq, Eq, Structural)]
pub struct Entity {
    pub id: EntityId,
    pub coord: Coordinate,
    pub foreground_tile: Option<ForegroundTile>,
    pub light_index: Option<LightId>,
    pub npc: bool,
    pub player: bool,
    pub interactive: bool,
    pub solid: bool,
    pub taking_damage_in_direction: Option<CardinalDirection>,
    pub hit_points: Option<HitPoints>,
    pub heal_countdown: Option<u32>,
    pub remaining_turns: Option<u32>,
}

/// An entity without its identity and position: what is handed to the
/// world to make one, and what is carried from one level to the next.
#[derive(Clone, Copy, Debug, PartialEq, Eq, Structural)]
pub struct PackedEntity {
    pub foreground_tile: Option<ForegroundTile>,
    pub light: Option<PackedLight>,
    pub npc: bool,
    pub player: bool,
    pub interactive: bool,
    pub hit_points: Option<HitPoints>,
    pub remaining_turns: Option<u32>,
    pub solid: bool,
}

/// What a cell records of an entity that stands on it.
#[derive(Clone, Copy, Debug, PartialEq, Eq, Structural)]
pub struct Occupant {
    pub id: EntityId,
    pub npc: bool,
    pub player: bool,
    pub interactive: bool,
    pub solid: bool,
}

/// One cell of the world.
pub struct WorldCell {
    background_tile: BackgroundTile,
    occupants: Vec<Occupant>,
}

pub open spec fn background_opacity(tile: BackgroundTile) -> u8 {
    match tile {
        BackgroundTile::Floor => 0,
        BackgroundTile::Ground => 0,
        BackgroundTile::IceWall => 128,
    }
}

pub open spec fn foreground_opacity(tile: ForegroundTile) -> u8 {
    match tile {
        ForegroundTile::Block => 255,
        ForegroundTile::Tree => 128,
        _ => 0,
    }
}

pub open spec fn entity_opacity(entity: Entity) -> u8 {
    match entity.foreground_tile {
        Some(tile) => foreground_opacity(tile),
        None => 0,
    }
}

pub open spec fn max_u8(a: u8, b: u8) -> u8 {
    if a >= b {
        a
    } else {
        b
    }
}

/// Whether `id` stands in `ids`.
pub open spec fn contains_id(ids: Seq<u64>, id: u64) -> bool {
    exists|i: int| 0 <= i < ids.len() && #[trigger] ids[i] == id
}

/// A position of `id` in `ids`.
pub open spec fn position(ids: Seq<u64>, id: u64) -> int {
    choose|i: int| 0 <= i < ids.len() && #[trigger] ids[i] == id
}

/// Whether each of `ids` is greater than those before it.
pub open spec fn increasing(ids: Seq<u64>) -> bool {
    forall|i: int, j: int| 0 <= i < j < ids.len() ==> ids[i] < ids[j]
}

/// In an increasing sequence an identity stands at one position only.
pub proof fn lemma_position(ids: Seq<u64>, i: int)
    requires
        increasing(ids),
        0 <= i < ids.len(),
    ensures
        contains_id(ids, ids[i]),
        position(ids, ids[i]) == i,
{
    let id = ids[i];
    let j = position(ids, id);
    assert(0 <= j < ids.len() && ids[j] == id);
    if j < i {
        assert(ids[j] < ids[i]);
    } else if i < j {
        assert(ids[i] < ids[j]);
    }
}

/// The identities of `entities`, in their order.
pub open spec fn entity_ids(entities: Seq<Entity>) -> Seq<u64> {
    Seq::new(entities.len(), |i: int| entities[i].id)
}

/// The identities of `lights`, in their order.
pub open spec fn light_ids(lights: Seq<(LightId, Light)>) -> Seq<u64> {
    Seq::new(lights.len(), |i: int| lights[i].0)
}

/// Whether some entity of `entities` has the identity `id`.
pub open spec fn has_id(entities: Seq<Entity>, id: EntityId) -> bool {
    contains_id(entity_ids(entities), id)
}

/// The position in `entities` of an entity with the identity `id`.
pub open spec fn index_of_id(entities: Seq<Entity>, id: EntityId) -> int {
    position(entity_ids(entities), id)
}

pub open spec fn ids_increasing(entities: Seq<Entity>) -> bool {
    increasing(entity_ids(entities))
}

/// The entity of `entities` with the identity `id`, if there is one.
pub open spec fn find_entity_spec(entities: Seq<Entity>, id: EntityId) -> Option<Entity> {
    if has_id(entities, id) {
        Some(entities[index_of_id(entities, id)])
    } else {
        None
    }
}

/// Whether some light of `lights` has the identity `id`.
pub open spec fn has_light(lights: Seq<(LightId, Light)>, id: LightId) -> bool {
    contains_id(light_ids(lights), id)
}

pub open spec fn index_of_light(lights: Seq<(LightId, Light)>, id: LightId) -> int {
    position(light_ids(lights), id)
}

pub open spec fn light_ids_increasing(lights: Seq<(LightId, Light)>) -> bool {
    increasing(light_ids(lights))
}

/// The light of `lights` with the identity `id`, if there is one.
pub open spec fn find_light_spec(lights: Seq<(LightId, Light)>, id: LightId) -> Option<Light> {
    if has_light(lights, id) {
        Some(lights[index_of_light(lights, id)].1)
    } else {
        None
    }
}

/// An identity greater than all of an increasing sequence can be put at
/// its end; the others are found where they were.
pub proof fn lemma_ids_push(ids: Seq<u64>, id: u64)
    requires
        increasing(ids),
        forall|i: int| 0 <= i < ids.len() ==> ids[i] < id,
    ensures
        increasing(ids.push(id)),
        contains_id(ids.push(id), id),
        position(ids.push(id), id) == ids.len(),
        forall|other: u64|
            other != id ==> #[trigger] contains_id(ids.push(id), other) == contains_id(ids, other),
        forall|other: u64|
            other != id && contains_id(ids, other) ==> #[trigger] position(ids.push(id), other)
                == position(ids, other),
{
    let new = ids.push(id);
    assert(new[ids.len() as int] == id);
    lemma_position(new, ids.len() as int);
    assert forall|other: u64| other != id implies #[trigger] contains_id(new, other)
        == contains_id(ids, other) by {
        if contains_id(ids, other) {
            let j = position(ids, other);
            assert(new[j] == other);
        }
        if contains_id(new, other) {
            let j = position(new, other);
            assert(ids[j] == other);
        }
    }
    assert forall|other: u64| other != id && contains_id(ids, other) implies #[trigger] position(
        new,
        other,
    ) == position(ids, other) by {
        let j = position(ids, other);
        assert(new[j] == other);
        lemma_position(new, j);
    }
}

/// The position that the element at `i` has once the element at `k` is taken out.
pub open spec fn shifted(i: int, k: int) -> int {
    if i < k {
        i
    } else {
        i - 1
    }
}

/// Taking one identity out of an increasing sequence leaves the others in
/// their order.
pub proof fn lemma_ids_remove(ids: Seq<u64>, k: int)
    requires
        increasing(ids),
        0 <= k < ids.len(),
    ensures
        increasing(ids.remove(k)),
        !contains_id(ids.remove(k), ids[k]),
        forall|other: u64|
            other != ids[k] ==> #[trigger] contains_id(ids.remove(k), other) == contains_id(
                ids,
                other,
            ),
        forall|other: u64|
            other != ids[k] && contains_id(ids, other) ==> #[trigger] position(
                ids.remove(k),
                other,
            ) == shifted(position(ids, other), k),
{
    let new = ids.remove(k);
    assert forall|i: int, j: int| 0 <= i < j < new.len() implies new[i] < new[j] by {
        let a = if i < k {
            i
        } else {
            i + 1
        };
        let b = if j < k {
            j
        } else {
            j + 1
        };
        assert(ids[a] < ids[b]);
    }
    if contains_id(new, ids[k]) {
        let j = position(new, ids[k]);
        let a = if j < k {
            j
        } else {
            j + 1
        };
        assert(ids[a] == ids[k]);
        if a < k {
            assert(ids[a] < ids[k]);
        } else {
            assert(ids[k] < ids[a]);
        }
    }
    assert forall|other: u64| other != ids[k] implies #[trigger] contains_id(new, other)
        == contains_id(ids, other) by {
        if contains_id(ids, other) {
            let j = position(ids, other);
            assert(new[shifted(j, k)] == other);
        }
        if contains_id(new, other) {
            let j = position(new, other);
            let a = if j < k {
                j
            } else {
                j + 1
            };
            assert(ids[a] == other);
        }
    }
    assert forall|other: u64| other != ids[k] && contains_id(ids, other)
        implies #[trigger] position(
        new,
        other,
    ) == shifted(position(ids, other), k) by {
        let j = position(ids, other);
        assert(new[shifted(j, k)] == other);
        lemma_position(new, shifted(j, k));
    }
}

/// The greatest opacity among the entities that `occupants` names.
pub open spec fn occupants_opacity(occupants: Seq<Occupant>, entities: Seq<Entity>) -> u8
    decreases occupants.len(),
{
    if occupants.len() == 0 {
        0
    } else {
        let rest = occupants_opacity(occupants.drop_last(), entities);
        let id = occupants.last().id;
        match find_entity_spec(entities, id) {
            Some(entity) => max_u8(rest, entity_opacity(entity)),
            None => rest,
        }
    }
}

/// What a cell records of `entity`.
pub open spec fn occupant_of(entity: Entity) -> Occupant {
    Occupant {
        id: entity.id,
        npc: entity.npc,
        player: entity.player,
        interactive: entity.interactive,
        solid: entity.solid,
    }
}

impl Rational {
    pub fn new(num: u32, denom: u32) -> (r: Rational)
        ensures
            r == (Rational { num, denom }),
    {
        Rational { num, denom }
    }
}

impl HitPoints {
    pub fn new(current: u32, max: u32) -> (r: HitPoints)
        ensures
            r == (HitPoints { current, max }),
    {
        HitPoints { current, max }
    }
}

impl PackedEntity {
    pub open spec fn default_spec() -> PackedEntity {
        PackedEntity {
            foreground_tile: None,
            light: None,
            npc: false,
            player: false,
            interactive: false,
            hit_points: None,
            remaining_turns: None,
            solid: false,
        }
    }

    pub open spec fn lit_spec(tile: Option<ForegroundTile>, colour: Rgb24) -> PackedEntity {
        PackedEntity {
            foreground_tile: tile,
            light: Some(
                PackedLight {
                    colour,
                    range_squared: 30,
                    diminish: Rational { num: 1, denom: 10 },
                },
            ),
            ..PackedEntity::default_spec()
        }
    }

    /// An entity of `tile` that carries the usual light in `colour`.
    fn lit(tile: Option<ForegroundTile>, colour: Rgb24) -> (r: PackedEntity)
        ensures
            r == PackedEntity::lit_spec(tile, colour),
    {
        PackedEntity {
            foreground_tile: tile,
            light: Some(PackedLight::new(colour, 30, Rational::new(1, 10))),
            npc: false,
            player: false,
            interactive: false,
            hit_points: None,
            remaining_turns: None,
            solid: false,
        }
    }

    pub open spec fn spark_spec() -> PackedEntity {
        PackedEntity::lit_spec(Some(ForegroundTile::Spark), Rgb24 { r: 0, g: 200, b: 200 })
    }

    pub fn spark() -> (r: PackedEntity)
        ensures
            r == PackedEntity::spark_spec(),
    {
        PackedEntity::lit(Some(ForegroundTile::Spark), Rgb24::new(0, 200, 200))
    }

    pub fn flame() -> (r: PackedEntity)
        ensures
            r == (PackedEntity {
                hit_points: Some(HitPoints { current: 3, max: 3 }),
                interactive: true,
                ..PackedEntity::lit_spec(
                    Some(ForegroundTile::Flame),
                    Rgb24 { r: 255, g: 120, b: 0 },
                )
            }),
    {
        let base = PackedEntity::lit(Some(ForegroundTile::Flame), Rgb24::new(255, 120, 0));
        PackedEntity { hit_points: Some(HitPoints::new(3, 3)), interactive: true, ..base }
    }

    pub fn altar() -> (r: PackedEntity)
        ensures
            r == (PackedEntity {
                hit_points: Some(HitPoints { current: 1, max: 1 }),
                interactive: true,
                ..PackedEntity::lit_spec(Some(ForegroundTile::Altar), Rgb24 { r: 0, g: 200, b: 50 })
            }),
    {
        let base = PackedEntity::lit(Some(ForegroundTile::Altar), Rgb24::new(0, 200, 50));
        PackedEntity { hit_points: Some(HitPoints::new(1, 1)), interactive: true, ..base }
    }

    pub fn fountain() -> (r: PackedEntity)
        ensures
            r == (PackedEntity {
                hit_points: Some(HitPoints { current: 1, max: 1 }),
                interactive: true,
                ..PackedEntity::lit_spec(
                    Some(ForegroundTile::Fountain),
                    Rgb24 { r: 50, g: 100, b: 200 },
                )
            }),
    {
        let base = PackedEntity::lit(Some(ForegroundTile::Fountain), Rgb24::new(50, 100, 200));
        PackedEntity { hit_points: Some(HitPoints::new(1, 1)), interactive: true, ..base }
    }

    pub open spec fn blink_spec() -> PackedEntity {
        PackedEntity::lit_spec(Some(ForegroundTile::Blink0), Rgb24 { r: 0, g: 255, b: 255 })
    }

    pub fn blink() -> (r: PackedEntity)
        ensures
            r == PackedEntity::blink_spec(),
    {
        PackedEntity::lit(Some(ForegroundTile::Blink0), Rgb24::new(0, 255, 255))
    }

    pub open spec fn glow_spec(colour: Rgb24) -> PackedEntity {
        PackedEntity::lit_spec(None, colour)
    }

    /// A light of `colour` that shows as nothing.
    pub fn glow(colour: Rgb24) -> (r: PackedEntity)
        ensures
            r == PackedEntity::glow_spec(colour),
    {
        PackedEntity::lit(None, colour)
    }

    /// A block that stands for four turns.
    pub fn block() -> (r: PackedEntity)
        ensures
            r == (PackedEntity {
                foreground_tile: Some(ForegroundTile::Block),
                remaining_turns: Some(4u32),
                solid: true,
                ..PackedEntity::default_spec()
            }),
    {
        PackedEntity {
            foreground_tile: Some(ForegroundTile::Block),
            light: None,
            npc: false,
            player: false,
            interactive: false,
            hit_points: None,
            remaining_turns: Some(4),
            solid: true,
        }
    }

    pub open spec fn player_spec() -> PackedEntity {
        PackedEntity {
            player: true,
            hit_points: Some(HitPoints { current: 2, max: 4 }),
            ..PackedEntity::lit_spec(
                Some(ForegroundTile::Player),
                Rgb24 { r: 128, g: 128, b: 128 },
            )
        }
    }

    pub fn player() -> (r: PackedEntity)
        ensures
            r == PackedEntity::player_spec(),
    {
        let base = PackedEntity::lit(Some(ForegroundTile::Player), Rgb24::grey(128));
        PackedEntity { player: true, hit_points: Some(HitPoints::new(2, 4)), ..base }
    }

    pub open spec fn npc_spec(tile: ForegroundTile, current: u32, max: u32) -> PackedEntity {
        PackedEntity {
            foreground_tile: Some(tile),
            npc: true,
            hit_points: Some(HitPoints { current, max }),
            ..PackedEntity::default_spec()
        }
    }

    /// An autonomous actor of `tile` with the given hit points.
    fn npc(tile: ForegroundTile, current: u32, max: u32) -> (r: PackedEntity)
        ensures
            r == PackedEntity::npc_spec(tile, current, max),
    {
        PackedEntity {
            foreground_tile: Some(tile),
            light: None,
            npc: true,
            player: false,
            interactive: false,
            hit_points: Some(HitPoints::new(current, max)),
            remaining_turns: None,
            solid: false,
        }
    }

    pub fn bumper() -> (r: PackedEntity)
        ensures
            r == PackedEntity::npc_spec(ForegroundTile::Bumper, 2, 3),
    {
        PackedEntity::npc(ForegroundTile::Bumper, 2, 3)
    }

    pub fn caster() -> (r: PackedEntity)
        ensures
            r == PackedEntity::npc_spec(ForegroundTile::Caster, 1, 2),
    {
        PackedEntity::npc(ForegroundTile::Caster, 1, 2)
    }

    pub fn healer() -> (r: PackedEntity)
        ensures
            r == PackedEntity::npc_spec(ForegroundTile::Healer, 1, 1),
    {
        PackedEntity::npc(ForegroundTile::Healer, 1, 1)
    }
}

impl Default for PackedEntity {
    fn default() -> (r: PackedEntity)
        ensures
            r == PackedEntity::default_spec(),
    {
        PackedEntity {
            foreground_tile: None,
            light: None,
            npc: false,
            player: false,
            interactive: false,
            hit_points: None,
            remaining_turns: None,
            solid: false,
        }
    }
}

impl PackedLight {
    pub fn new(colour: Rgb24, range_squared: u32, diminish: Rational) -> (r: PackedLight)
        ensures
            r == (PackedLight { colour, range_squared, diminish }),
    {
        PackedLight { colour, range_squared, diminish }
    }

    pub open spec fn light_spec(self, coord: Coordinate) -> Light {
        Light {
            coord,
            colour: self.colour,
            range_squared: self.range_squared,
            diminish: self.diminish,
        }
    }

    /// The light at `coord`.
    pub fn light(self, coord: Coordinate) -> (r: Light)
        ensures
            r == self.light_spec(coord),
    {
        Light::new(coord, self.colour, self.range_squared, self.diminish)
    }
}

impl Light {
    pub fn new(coord: Coordinate, colour: Rgb24, range_squared: u32, diminish: Rational)
        -> (r: Light)
        ensures
            r == (Light { coord, colour, range_squared, diminish }),
    {
        Light { coord, colour, range_squared, diminish }
    }

    /// The divisor of the light's colour at `coord`: the squared distance
    /// times the falloff's denominator, and at least 1.
    pub open spec fn diminish_at_coord_spec(self, coord: Coordinate) -> int {
        let d = self.coord.distance_squared_spec(coord) * self.diminish.denom;
        if d < 1 {
            1
        } else {
            d
        }
    }

    pub fn diminish_at_coord(&self, coord: Coordinate) -> (r: u128)
        ensures
            r == self.diminish_at_coord_spec(coord),
    {
        let d2: u128 = self.coord.distance_squared(coord);
        assert(d2 <= 2 * 0xffff_ffff * 0xffff_ffff) by (nonlinear_arith)
            requires
                d2 == self.coord.distance_squared_spec(coord),
                -0xffff_ffff <= self.coord.x - coord.x <= 0xffff_ffff,
                -0xffff_ffff <= self.coord.y - coord.y <= 0xffff_ffff,
        ;
        assert(d2 * self.diminish.denom <= 2 * 0xffff_ffff * 0xffff_ffff * 0xffff_ffff)
            by (nonlinear_arith)
            requires
                d2 <= 2 * 0xffff_ffff * 0xffff_ffff,
                self.diminish.denom <= 0xffff_ffff,
        ;
        let d: u128 = d2 * self.diminish.denom as u128;
        if d < 1 {
            1
        } else {
            d
        }
    }

    /// The colour the light gives at `coord`: each channel is the base
    /// colour's times the falloff's numerator, divided by
    /// [`Light::diminish_at_coord_spec`], and held at 255.
    pub open spec fn colour_at_coord_spec(self, coord: Coordinate) -> Rgb24 {
        self.colour.scaled_spec(self.diminish.num, self.diminish_at_coord_spec(coord))
    }

    pub fn colour_at_coord(&self, coord: Coordinate) -> (c: Rgb24)
        ensures
            c == self.colour_at_coord_spec(coord),
    {
        self.colour.scaled(self.diminish.num, self.diminish_at_coord(coord))
    }

    pub fn range_squared(&self) -> (r: u32)
        ensures
            r == self.range_squared,
    {
        self.range_squared
    }

    pub fn coord(&self) -> (c: Coordinate)
        ensures
            c == self.coord,
    {
        self.coord
    }

    pub open spec fn pack_spec(self) -> PackedLight {
        PackedLight {
            colour: self.colour,
            range_squared: self.range_squared,
            diminish: self.diminish,
        }
    }

    /// The light without its position.
    pub fn pack(&self) -> (r: PackedLight)
        ensures
            r == self.pack_spec(),
    {
        PackedLight {
            colour: self.colour,
            range_squared: self.range_squared,
            diminish: self.diminish,
        }
    }
}

/// A light is never brighter at a coordinate farther from it.
pub proof fn lemma_falloff_monotone(light: Light, near: Coordinate, far: Coordinate)
    requires
        light.coord.distance_squared_spec(near) <= light.coord.distance_squared_spec(far),
    ensures
        light.colour_at_coord_spec(near).at_least(light.colour_at_coord_spec(far)),
{
    let dn = light.coord.distance_squared_spec(near);
    let df = light.coord.distance_squared_spec(far);
    let k = light.diminish.denom as int;
    assert(dn * k <= df * k) by (nonlinear_arith)
        requires
            dn <= df,
            k >= 0,
    ;
    let n = light.diminish_at_coord_spec(near);
    let f = light.diminish_at_coord_spec(far);
    assert(n <= f);
    crate::colour::lemma_scaled_channel_monotone(light.colour.r, light.diminish.num, n, f);
    crate::colour::lemma_scaled_channel_monotone(light.colour.g, light.diminish.num, n, f);
    crate::colour::lemma_scaled_channel_monotone(light.colour.b, light.diminish.num, n, f);
}

impl Entity {
    pub fn id(&self) -> (r: EntityId)
        ensures
            r == self.id,
    {
        self.id
    }

    pub fn coord(&self) -> (r: Coordinate)
        ensures
            r == self.coord,
    {
        self.coord
    }

    pub fn foreground_tile(&self) -> (r: Option<ForegroundTile>)
        ensures
            r == self.foreground_tile,
    {
        self.foreground_tile
    }

    pub fn taking_damage_in_direction(&self) -> (r: Option<CardinalDirection>)
        ensures
            r == self.taking_damage_in_direction,
    {
        self.taking_damage_in_direction
    }

    pub fn hit_points(&self) -> (r: Option<HitPoints>)
        ensures
            r == self.hit_points,
    {
        self.hit_points
    }

    pub fn is_npc(&self) -> (r: bool)
        ensures
            r == self.npc,
    {
        self.npc
    }

    pub fn is_projectile(&self) -> (r: bool)
        ensures
            r == (self.foreground_tile == Some(ForegroundTile::Spark)),
    {
        match self.foreground_tile {
            Some(ForegroundTile::Spark) => true,
            _ => false,
        }
    }

    pub fn heal_countdown(&self) -> (r: Option<u32>)
        ensures
            r == self.heal_countdown,
    {
        self.heal_countdown
    }

    /// The opacity the entity gives the cell it stands on.
    pub fn opacity(&self) -> (r: u8)
        ensures
            r == entity_opacity(*self),
    {
        match self.foreground_tile {
            Some(ForegroundTile::Block) => 255,
            Some(ForegroundTile::Tree) => 128,
            _ => 0,
        }
    }

    /// What a cell records of the entity.
    pub fn occupant(&self) -> (r: Occupant)
        ensures
            r == occupant_of(*self),
    {
        Occupant {
            id: self.id,
            npc: self.npc,
            player: self.player,
            interactive: self.interactive,
            solid: self.solid,
        }
    }
}

impl WorldCell {
    pub closed spec fn background_spec(&self) -> BackgroundTile {
        self.background_tile
    }

    /// The entities that stand on the cell.
    pub closed spec fn occupants_spec(&self) -> Seq<Occupant> {
        self.occupants@
    }

    /// A cell of `background_tile` on which nothing stands.
    pub fn new(background_tile: BackgroundTile) -> (cell: WorldCell)
        ensures
            cell.background_spec() == background_tile,
            cell.occupants_spec() == Seq::<Occupant>::empty(),
    {
        WorldCell { background_tile, occupants: Vec::new() }
    }

    pub fn background_tile(&self) -> (r: BackgroundTile)
        ensures
            r == self.background_spec(),
    {
        self.background_tile
    }

    pub fn set_background(&mut self, background_tile: BackgroundTile)
        ensures
            final(self).background_spec() == background_tile,
            final(self).occupants_spec() == old(self).occupants_spec(),
    {
        self.background_tile = background_tile;
    }

    /// Records that `occupant` has come to the cell.
    pub fn push_occupant(&mut self, occupant: Occupant)
        ensures
            final(self).background_spec() == old(self).background_spec(),
            final(self).occupants_spec() == old(self).occupants_spec().push(occupant),
    {
        self.occupants.push(occupant);
    }

    /// Where among the occupants the entity `id` is recorded first.
    pub fn position_of(&self, id: EntityId) -> (r: Option<usize>)
        ensures
            r.is_some()
                == (first_index_of(self.occupants_spec(), id) < self.occupants_spec().len()),
            r.is_some() ==> r.unwrap() == first_index_of(self.occupants_spec(), id)
                && self.occupants_spec()[r.unwrap() as int].id == id,
            r.is_none() ==> forall|k: int|
                0 <= k < self.occupants_spec().len() ==> (#[trigger] self.occupants_spec()[k]).id
                    != id,
    {
        let mut k: usize = 0;
        while k < self.occupants.len()
            invariant
                k <= self.occupants@.len(),
                forall|j: int| 0 <= j < k ==> (#[trigger] self.occupants@[j]).id != id,
            decreases self.occupants@.len() - k,
        {
            if self.occupants[k].id == id {
                proof {
                    lemma_first_index_of(self.occupants_spec(), id, k as int);
                }
                return Some(k);
            }
            k += 1;
        }
        proof {
            lemma_first_index_of(self.occupants_spec(), id, k as int);
        }
        None
    }

    /// Forgets the occupant recorded at position `k`.
    pub fn remove_occupant_at(&mut self, k: usize)
        requires
            k < old(self).occupants_spec().len(),
        ensures
            final(self).background_spec() == old(self).background_spec(),
            final(self).occupants_spec() == old(self).occupants_spec().remove(k as int),
    {
        self.occupants.remove(k);
    }

    /// The entities that stand on the cell.
    pub fn occupants(&self) -> (r: &Vec<Occupant>)
        ensures
            r@ == self.occupants_spec(),
    {
        &self.occupants
    }

    /// Whether an occupant of the given kind stands on the cell.
    pub open spec fn contains_spec(&self, kind: OccupantKind) -> bool {
        exists|k: int|
            0 <= k < self.occupants_spec().len() && occupant_is(
                #[trigger] self.occupants_spec()[k],
                kind,
            )
    }

    /// A wall, or a cell on which something interactive or solid stands.
    pub open spec fn is_solid_spec(&self) -> bool {
        self.background_spec() == BackgroundTile::IceWall || self.contains_spec(
            OccupantKind::Obstacle,
        )
    }

    pub fn is_solid(&self) -> (r: bool)
        ensures
            r == self.is_solid_spec(),
    {
        match self.background_tile {
            BackgroundTile::IceWall => true,
            _ => self.first_of(OccupantKind::Obstacle).is_some(),
        }
    }

    pub open spec fn contains_npc_spec(&self) -> bool {
        self.contains_spec(OccupantKind::Npc)
    }

    pub fn contains_npc(&self) -> (r: bool)
        ensures
            r == self.contains_npc_spec(),
    {
        self.first_of(OccupantKind::Npc).is_some()
    }

    pub open spec fn contains_player_spec(&self) -> bool {
        self.contains_spec(OccupantKind::Player)
    }

    pub fn contains_player(&self) -> (r: bool)
        ensures
            r == self.contains_player_spec(),
    {
        self.first_of(OccupantKind::Player).is_some()
    }

    pub open spec fn is_interactive_spec(&self) -> bool {
        self.contains_spec(OccupantKind::Interactive)
    }

    pub fn is_interactive(&self) -> (r: bool)
        ensures
            r == self.is_interactive_spec(),
    {
        self.first_of(OccupantKind::Interactive).is_some()
    }

    /// The first occupant of the given kind, in the order in which the
    /// occupants came to the cell.
    pub fn first_of(&self, kind: OccupantKind) -> (r: Option<EntityId>)
        ensures
            r == first_matching(self.occupants_spec(), kind),
            r.is_some() == self.contains_spec(kind),
    {
        let mut k: usize = 0;
        while k < self.occupants.len()
            invariant
                k <= self.occupants@.len(),
                forall|j: int| 0 <= j < k ==> !occupant_is(#[trigger] self.occupants@[j], kind),
            decreases self.occupants@.len() - k,
        {
            if self.occupants[k].is_kind(kind) {
                proof {
                    assert(occupant_is(self.occupants_spec()[k as int], kind));
                    lemma_first_matching(self.occupants_spec(), kind, k as int);
                }
                return Some(self.occupants[k].id);
            }
            k += 1;
        }
        proof {
            lemma_first_matching(self.occupants_spec(), kind, k as int);
        }
        None
    }
}

/// The kinds of occupant that the rules of movement ask a cell for.
#[derive(Clone, Copy, Debug, PartialEq, Eq, Structural)]
pub enum OccupantKind {
    Npc,
    Player,
    Interactive,
    /// A player or an autonomous actor.
    Character,
    /// Something interactive or solid.
    Obstacle,
}

pub open spec fn occupant_is(occupant: Occupant, kind: OccupantKind) -> bool {
    match kind {
        OccupantKind::Npc => occupant.npc,
        OccupantKind::Player => occupant.player,
        OccupantKind::Interactive => occupant.interactive,
        OccupantKind::Character => occupant.player || occupant.npc,
        OccupantKind::Obstacle => occupant.interactive || occupant.solid,
    }
}

impl Occupant {
    pub fn is_kind(&self, kind: OccupantKind) -> (r: bool)
        ensures
            r == occupant_is(*self, kind),
    {
        match kind {
            OccupantKind::Npc => self.npc,
            OccupantKind::Player => self.player,
            OccupantKind::Interactive => self.interactive,
            OccupantKind::Character => self.player || self.npc,
            OccupantKind::Obstacle => self.interactive || self.solid,
        }
    }
}

/// The first position at which `occupants` records the entity `id`, and
/// the length where it does not.
pub open spec fn first_index_of(occupants: Seq<Occupant>, id: EntityId) -> int
    decreases occupants.len(),
{
    if occupants.len() == 0 {
        0
    } else if occupants[0].id == id {
        0
    } else {
        1 + first_index_of(occupants.skip(1), id)
    }
}

/// `occupants` without the first record of the entity `id`.
pub open spec fn without_id(occupants: Seq<Occupant>, id: EntityId) -> Seq<Occupant> {
    let k = first_index_of(occupants, id);
    if 0 <= k < occupants.len() {
        occupants.remove(k)
    } else {
        occupants
    }
}

/// Where none of the first `k` occupants is the entity `id` and the one at
/// `k` is, or `k` is the length, `k` is the first position of `id`.
pub proof fn lemma_first_index_of(occupants: Seq<Occupant>, id: EntityId, k: int)
    requires
        0 <= k <= occupants.len(),
        forall|j: int| 0 <= j < k ==> (#[trigger] occupants[j]).id != id,
        k < occupants.len() ==> occupants[k].id == id,
    ensures
        first_index_of(occupants, id) == k,
    decreases k,
{
    if k > 0 {
        let rest = occupants.skip(1);
        assert forall|j: int| 0 <= j < k - 1 implies (#[trigger] rest[j]).id != id by {
            assert(rest[j] == occupants[j + 1]);
        }
        lemma_first_index_of(rest, id, k - 1);
    }
}

/// The first position of an entity that is recorded lies inside the
/// sequence and holds that entity.
pub proof fn lemma_first_index_found(occupants: Seq<Occupant>, id: EntityId)
    requires
        exists|k: int| 0 <= k < occupants.len() && (#[trigger] occupants[k]).id == id,
    ensures
        0 <= first_index_of(occupants, id) < occupants.len(),
        occupants[first_index_of(occupants, id)].id == id,
    decreases occupants.len(),
{
    if occupants[0].id != id {
        let rest = occupants.skip(1);
        let k = choose|k: int| 0 <= k < occupants.len() && (#[trigger] occupants[k]).id == id;
        assert(rest[k - 1] == occupants[k]);
        lemma_first_index_found(rest, id);
        assert(rest[first_index_of(rest, id)] == occupants[first_index_of(rest, id) + 1]);
    }
}

/// The identity of the first of `occupants` that is of the given kind.
pub open spec fn first_matching(occupants: Seq<Occupant>, kind: OccupantKind) -> Option<EntityId>
    decreases occupants.len(),
{
    if occupants.len() == 0 {
        None
    } else if occupant_is(occupants[0], kind) {
        Some(occupants[0].id)
    } else {
        first_matching(occupants.skip(1), kind)
    }
}

/// Where none of the first `k` occupants is of the kind, the first match is
/// the occupant at `k`, or there is none if `k` is the length.
pub proof fn lemma_first_matching(occupants: Seq<Occupant>, kind: OccupantKind, k: int)
    requires
        0 <= k <= occupants.len(),
        forall|j: int| 0 <= j < k ==> !occupant_is(#[trigger] occupants[j], kind),
        k < occupants.len() ==> occupant_is(occupants[k], kind),
    ensures
        first_matching(occupants, kind) == if k < occupants.len() {
            Some(occupants[k].id)
        } else {
            None
        },
    decreases k,
{
    if k > 0 {
        let rest = occupants.skip(1);
        assert forall|j: int| 0 <= j < k - 1 implies !occupant_is(#[trigger] rest[j], kind) by {
            assert(rest[j] == occupants[j + 1]);
        }
        lemma_first_matching(rest, kind, k - 1);
    }
}

} // verus!
