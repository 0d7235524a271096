//! How one world differs from another after an entity has come, moved,
//! changed or gone: the relations that the contracts of the world's
//! functions are stated in.

use vstd::prelude::*;
use crate::action::CancelAction;
use crate::colour::Rgb24;
use crate::entity::{
    index_of_id,
    index_of_light,
    occupant_of,
    without_id,
    BackgroundTile,
    Entity,
    EntityId,
    ForegroundTile,
    HitPoints,
    Light,
    LightId,
    PackedEntity,
    Rational,
};
use crate::geometry::Coordinate;
use crate::world::cells::{occupants_moved, terrain_kept};
use crate::world::tables::{entity_made, light_moved, light_removed};
use crate::world::World;

verus! {

impl World {
    /// Whether this world has the size, the tables and the counters of `before`.
    pub open spec fn same_tables(&self, before: &World) -> bool {
        &&& self.size_spec() == before.size_spec()
        &&& self.entities_spec() == before.entities_spec()
        &&& self.lights_spec() == before.lights_spec()
        &&& self.next_id_spec() == before.next_id_spec()
        &&& self.next_light_id_spec() == before.next_light_id_spec()
    }

    /// Whether this world is `before` but for the terrain of the cell at
    /// `coord`, which is now `tile`.
    pub open spec fn paved(&self, before: &World, coord: Coordinate, tile: BackgroundTile) -> bool {
        &&& self.same_tables(before)
        &&& self.cells_spec().len() == before.cells_spec().len()
        &&& self.cell_spec(coord).background_spec() == tile
        &&& self.cell_spec(coord).occupants_spec() == before.cell_spec(coord).occupants_spec()
        &&& forall|c: Coordinate|
            c != coord && before.size_spec().contains_spec(c) ==> #[trigger] self.cell_spec(c)
                == before.cell_spec(c)
    }

    /// Whether this world is `before` with one more entity, made of
    /// `packed` at `coord` under the next identity, and with its light if
    /// it has one.
    pub open spec fn added(&self, before: &World, coord: Coordinate, packed: PackedEntity) -> bool {
        let id = before.next_id_spec();
        let e = entity_made(
            id,
            coord,
            packed,
            match packed.light {
                Some(_) => Some(before.next_light_id_spec()),
                None => None,
            },
        );
        &&& self.size_spec() == before.size_spec()
        &&& self.next_id_spec() == id + 1
        &&& self.entities_spec() == before.entities_spec().push(e)
        &&& self.lights_spec() == match packed.light {
            Some(light) => before.lights_spec().push(
                (before.next_light_id_spec(), light.light_spec(coord)),
            ),
            None => before.lights_spec(),
        }
        &&& self.next_light_id_spec() == match packed.light {
            Some(_) => before.next_light_id_spec() + 1,
            None => before.next_light_id_spec() as int,
        }
        &&& terrain_kept(before.cells_spec(), self.cells_spec())
        &&& forall|i: int|
            0 <= i < before.cells_spec().len() ==> (
            #[trigger] self.cells_spec()[i]).occupants_spec()
                == if before.size_spec().contains_spec(
                coord,
            ) && i == before.size_spec().index_of(coord) {
                before.cells_spec()[i].occupants_spec().push(occupant_of(e))
            } else {
                before.cells_spec()[i].occupants_spec()
            }
    }

    /// Whether this world is `before` but for the entity `id`, which is now
    /// `entity`.
    pub open spec fn retouched(&self, before: &World, id: EntityId, entity: Entity) -> bool {
        &&& self.size_spec() == before.size_spec()
        &&& self.next_id_spec() == before.next_id_spec()
        &&& self.next_light_id_spec() == before.next_light_id_spec()
        &&& self.lights_spec() == before.lights_spec()
        &&& self.cells_spec() == before.cells_spec()
        &&& self.entities_spec() == before.entities_spec().update(
            index_of_id(before.entities_spec(), id),
            entity,
        )
    }

    /// Whether this world is `before` but for the light `id`, which is now `light`.
    pub open spec fn relit(&self, before: &World, id: LightId, light: Light) -> bool {
        &&& self.size_spec() == before.size_spec()
        &&& self.next_id_spec() == before.next_id_spec()
        &&& self.next_light_id_spec() == before.next_light_id_spec()
        &&& self.entities_spec() == before.entities_spec()
        &&& self.cells_spec() == before.cells_spec()
        &&& self.lights_spec() == before.lights_spec().update(
            index_of_light(before.lights_spec(), id),
            (id, light),
        )
    }

    /// Whether this world is `before` but for the entity `id`, which has
    /// gone to `coord` with its light.
    pub open spec fn moved(&self, before: &World, id: EntityId, coord: Coordinate) -> bool {
        let index = index_of_id(before.entities_spec(), id);
        let e = before.entities_spec()[index];
        &&& self.size_spec() == before.size_spec()
        &&& self.next_id_spec() == before.next_id_spec()
        &&& self.next_light_id_spec() == before.next_light_id_spec()
        &&& self.entities_spec() == before.entities_spec().update(index, Entity { coord, ..e })
        &&& self.lights_spec() == light_moved(before.lights_spec(), e.light_index, coord)
        &&& terrain_kept(before.cells_spec(), self.cells_spec())
        &&& forall|i: int|
            0 <= i < before.cells_spec().len() ==> (
            #[trigger] self.cells_spec()[i]).occupants_spec() == occupants_moved(
                before.cells_spec()[i].occupants_spec(),
                i,
                before.size_spec(),
                e,
                coord,
            )
    }

    /// Whether this world is `before` without the entity `id`, its light
    /// and the record of it on its cell.
    pub open spec fn removed(&self, before: &World, id: EntityId) -> bool {
        let index = index_of_id(before.entities_spec(), id);
        let e = before.entities_spec()[index];
        &&& self.size_spec() == before.size_spec()
        &&& self.next_id_spec() == before.next_id_spec()
        &&& self.next_light_id_spec() == before.next_light_id_spec()
        &&& self.entities_spec() == before.entities_spec().remove(index)
        &&& self.lights_spec() == light_removed(before.lights_spec(), e.light_index)
        &&& terrain_kept(before.cells_spec(), self.cells_spec())
        &&& forall|i: int|
            0 <= i < before.cells_spec().len() ==> (
            #[trigger] self.cells_spec()[i]).occupants_spec()
                == if before.size_spec().contains_spec(
                e.coord,
            ) && i == before.size_spec().index_of(e.coord) {
                without_id(before.cells_spec()[i].occupants_spec(), id)
            } else {
                before.cells_spec()[i].occupants_spec()
            }
    }

    /// Whether [`World::remove_entity`] takes the entity `id` out: the world
    /// has it and it is not the player.
    pub open spec fn removes(&self, id: EntityId) -> bool {
        self.entity_spec(id).is_some() && !self.entity_spec(id).unwrap().player
    }

    /// Whether this world is `before` without the entity `id`, where
    /// [`World::remove_entity`] takes it out, and `before` itself else.
    pub open spec fn gone(&self, before: &World, id: EntityId) -> bool {
        if before.removes(id) {
            self.removed(before, id)
        } else {
            *self == *before
        }
    }

    /// Whether this world is `before` but for the entity `id`, if there is
    /// one, which now shows as `tile`.
    pub open spec fn shown_as(&self, before: &World, id: EntityId, tile: ForegroundTile) -> bool {
        match before.entity_spec(id) {
            Some(e) => self.retouched(before, id, Entity { foreground_tile: Some(tile), ..e }),
            None => *self == *before,
        }
    }

    /// Whether this world is `before` but for the entity `id`, if there is
    /// one, whose countdown to healing is now `value`.
    pub open spec fn heal_countdown_set(
        &self,
        before: &World,
        id: EntityId,
        value: Option<u32>,
    ) -> bool {
        match before.entity_spec(id) {
            Some(e) => self.retouched(before, id, Entity { heal_countdown: value, ..e }),
            None => *self == *before,
        }
    }

    /// The light that the entity `id` carries, if the world has the entity
    /// and the entity a light.
    pub open spec fn light_of(&self, id: EntityId) -> Option<LightId> {
        match self.entity_spec(id) {
            Some(e) => e.light_index,
            None => None,
        }
    }

    /// Whether this world is `before` but for the light of the entity `id`,
    /// if there is one, which now has `colour` and `diminish`.
    pub open spec fn light_params_set(
        &self,
        before: &World,
        id: EntityId,
        colour: Rgb24,
        diminish: Rational,
    ) -> bool {
        match before.light_of(id) {
            Some(l) => self.relit(
                before,
                l,
                Light { colour, diminish, ..before.light_spec(l).unwrap() },
            ),
            None => *self == *before,
        }
    }

    /// Whether this world is `before` but for the light of the entity `id`,
    /// if there is one, whose falloff now has the denominator `denom`.
    pub open spec fn light_denom_set(&self, before: &World, id: EntityId, denom: u32) -> bool {
        match before.light_of(id) {
            Some(l) => {
                let light = before.light_spec(l).unwrap();
                self.relit(
                    before,
                    l,
                    Light { diminish: Rational { num: light.diminish.num, denom }, ..light },
                )
            },
            None => *self == *before,
        }
    }

    /// Whether this world is `before` but for the light of the entity `id`,
    /// if there is one, whose squared range is greater by `by`, or the
    /// greatest `u32` where the sum is more.
    pub open spec fn light_radius_raised(&self, before: &World, id: EntityId, by: u32) -> bool {
        match before.light_of(id) {
            Some(l) => {
                let light = before.light_spec(l).unwrap();
                self.relit(
                    before,
                    l,
                    Light {
                        range_squared: if light.range_squared + by > u32::MAX {
                            u32::MAX
                        } else {
                            (light.range_squared + by) as u32
                        },
                        ..light
                    },
                )
            },
            None => *self == *before,
        }
    }

    /// Whether this world is `before` but for the entity `id`, if there is
    /// one with hit points, which can now have `by` more, or the greatest
    /// `u32` where the sum is more.
    pub open spec fn max_hit_points_raised(&self, before: &World, id: EntityId, by: u32) -> bool {
        match before.entity_spec(id) {
            Some(e) => match e.hit_points {
                Some(hp) => self.retouched(
                    before,
                    id,
                    Entity {
                        hit_points: Some(
                            HitPoints {
                                current: hp.current,
                                max: if hp.max + by > u32::MAX {
                                    u32::MAX
                                } else {
                                    (hp.max + by) as u32
                                },
                            },
                        ),
                        ..e
                    },
                ),
                None => *self == *before,
            },
            None => *self == *before,
        }
    }

    /// What [`World::heal`] returns and leaves of the entity.
    pub open spec fn healed(e: Entity, by: u32) -> Result<Entity, CancelAction> {
        match e.hit_points {
            Some(hp) => if hp.current < hp.max {
                Ok(
                    Entity {
                        hit_points: Some(
                            HitPoints {
                                current: if hp.current + by > hp.max {
                                    hp.max
                                } else {
                                    (hp.current + by) as u32
                                },
                                max: hp.max,
                            },
                        ),
                        ..e
                    },
                )
            } else {
                Err(CancelAction::AlreadyFullHitPoints)
            },
            None => Err(CancelAction::NoField),
        }
    }

    /// `e` with `damage` hit points less, and with none below 0.
    pub open spec fn hurt(e: Entity, damage: u32) -> Entity {
        match e.hit_points {
            Some(hp) => Entity {
                hit_points: Some(
                    HitPoints {
                        current: if hp.current <= damage {
                            0u32
                        } else {
                            (hp.current - damage) as u32
                        },
                        max: hp.max,
                    },
                ),
                ..e
            },
            None => e,
        }
    }

    /// Whether this world is `before` after the entity `id` has lost
    /// `damage` hit points: an entity left with none is gone, unless it is
    /// the player, and an entity without hit points is as it was.
    pub open spec fn damaged(&self, before: &World, id: EntityId, damage: u32) -> bool {
        match before.entity_spec(id) {
            Some(e) => match e.hit_points {
                Some(hp) => if hp.current <= damage && !e.player {
                    self.removed(before, id)
                } else {
                    self.retouched(before, id, World::hurt(e, damage))
                },
                None => *self == *before,
            },
            None => *self == *before,
        }
    }
}

} // verus!
