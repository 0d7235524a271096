//! What the entities do in the world: step, strike, teleport and cast.
//! Each action is decided before anything changes, so that one that is
//! called off leaves the world as it was.

use vstd::prelude::*;
use crate::action::{Animation, ApplyAction, CancelAction, ProjectileMove};
use crate::entity::{first_matching, EntityId, OccupantKind, PackedEntity};
use crate::geometry::{CardinalDirection, Coordinate};
use crate::world::tables::{lemma_find_entity, players_kept};
use crate::world::cells::lemma_character;
use crate::world::{Instruction, World, BLINK_RANGE};

verus! {

impl World {
    /// What comes of the entity `id` stepping in `direction`: the player
    /// interacts with what is interactive, nothing enters a solid cell or
    /// the cell of an autonomous actor, an autonomous actor that steps onto
    /// the player strikes, and every other step is taken.
    pub open spec fn step_outcome(&self, id: EntityId, direction: CardinalDirection) -> Result<
        ApplyAction,
        CancelAction,
    > {
        match self.entity_spec(id) {
            None => Err(CancelAction::NoEntity),
            Some(e) => match e.coord.step_spec(direction) {
                None => Err(CancelAction::OutOfBounds),
                Some(to) => if !self.size_spec().contains_spec(to) {
                    Err(CancelAction::OutOfBounds)
                } else {
                    let cell = self.cell_spec(to);
                    if e.player && cell.is_interactive_spec() {
                        Ok(
                            ApplyAction::Interact(
                                first_matching(
                                    cell.occupants_spec(),
                                    OccupantKind::Interactive,
                                ).unwrap(),
                            ),
                        )
                    } else if cell.is_solid_spec() {
                        Err(CancelAction::MoveIntoSolidCell)
                    } else if cell.contains_npc_spec() {
                        Err(CancelAction::MoveIntoNpc)
                    } else if e.npc && cell.contains_player_spec() {
                        Ok(
                            ApplyAction::Animation(
                                Animation::damage_spec(
                                    first_matching(
                                        cell.occupants_spec(),
                                        OccupantKind::Player,
                                    ).unwrap(),
                                    direction,
                                ),
                            ),
                        )
                    } else {
                        Ok(ApplyAction::Done)
                    }
                },
            },
        }
    }

    /// Moves the entity `id` one step in `direction`, whatever stands
    /// there. Nothing moves where the world has no such entity or the step
    /// would leave the range of coordinates.
    pub fn move_entity_in_direction(&mut self, id: EntityId, direction: CardinalDirection)
        requires
            old(self).wf(),
        ensures
            players_kept(old(self).entities_spec(), final(self).entities_spec()),
            final(self).wf(),
            match old(self).entity_spec(id) {
                Some(e) => match e.coord.step_spec(direction) {
                    Some(to) => final(self).moved(old(self), id, to),
                    None => *final(self) == *old(self),
                },
                None => *final(self) == *old(self),
            },
    {
        match self.find_entity(id) {
            Some(index) => {
                proof {
                    lemma_find_entity(self.entities_spec(), index as int);
                }
                match self.entities[index].coord.step(direction) {
                    Some(to) => {
                        self.move_entity_to_coord(index, to);
                    },
                    None => {},
                }
            },
            None => {},
        }
    }

    /// Lets the entity `id` step in `direction` under the rules of
    /// [`World::step_outcome`]. The world changes only where the step is taken.
    pub fn move_entity_in_direction_with_attack_policy(
        &mut self,
        id: EntityId,
        direction: CardinalDirection,
    ) -> (r: Result<ApplyAction, CancelAction>)
        requires
            old(self).wf(),
        ensures
            players_kept(old(self).entities_spec(), final(self).entities_spec()),
            final(self).wf(),
            r == old(self).step_outcome(id, direction),
            r == Ok::<ApplyAction, CancelAction>(ApplyAction::Done) ==> final(self).moved(
                old(self),
                id,
                old(self).entity_spec(id).unwrap().coord.step_spec(direction).unwrap(),
            ),
            r != Ok::<ApplyAction, CancelAction>(ApplyAction::Done) ==> *final(self) == *old(self),
    {
        let index = match self.find_entity(id) {
            Some(index) => index,
            None => {
                return Err(CancelAction::NoEntity);
            },
        };
        proof {
            lemma_find_entity(self.entities_spec(), index as int);
        }
        let entity = self.entities[index];
        let coord = match entity.coord.step(direction) {
            Some(coord) => coord,
            None => {
                return Err(CancelAction::OutOfBounds);
            },
        };
        let cell = match self.grid.get(coord) {
            Some(cell) => cell,
            None => {
                return Err(CancelAction::OutOfBounds);
            },
        };
        if entity.player && cell.is_interactive() {
            let interactive_id = cell.first_of(OccupantKind::Interactive).unwrap();
            Ok(ApplyAction::Interact(interactive_id))
        } else if cell.is_solid() {
            Err(CancelAction::MoveIntoSolidCell)
        } else if cell.contains_npc() {
            Err(CancelAction::MoveIntoNpc)
        } else if entity.npc && cell.contains_player() {
            let player_id = cell.first_of(OccupantKind::Player).unwrap();
            Ok(ApplyAction::Animation(Animation::damage(player_id, direction)))
        } else {
            self.move_entity_to_coord(index, coord);
            Ok(ApplyAction::Done)
        }
    }

    /// What comes of the entity `id` teleporting to `coord`: it arrives
    /// where the cell is inside the grid, neither solid nor held by an
    /// autonomous actor, and no more than [`BLINK_RANGE`] steps away.
    pub open spec fn blink_outcome(&self, id: EntityId, coord: Coordinate) -> Result<
        ApplyAction,
        CancelAction,
    > {
        match self.entity_spec(id) {
            None => Err(CancelAction::NoEntity),
            Some(e) => if !self.size_spec().contains_spec(coord) {
                Err(CancelAction::OutOfBounds)
            } else if self.cell_spec(coord).is_solid_spec() {
                Err(CancelAction::MoveIntoSolidCell)
            } else if self.cell_spec(coord).contains_npc_spec() {
                Err(CancelAction::MoveIntoNpc)
            } else if e.coord.manhattan_distance_spec(coord) <= BLINK_RANGE {
                Ok(ApplyAction::Animation(Animation::blink_spec(e.coord)))
            } else {
                Err(CancelAction::OutOfRange)
            },
        }
    }

    /// Teleports the entity `id` to `coord` under the rules of
    /// [`World::blink_outcome`]. The world changes only where it arrives.
    pub fn blink_entity_to_coord(&mut self, id: EntityId, coord: Coordinate) -> (r: Result<
        ApplyAction,
        CancelAction,
    >)
        requires
            old(self).wf(),
        ensures
            players_kept(old(self).entities_spec(), final(self).entities_spec()),
            final(self).wf(),
            r == old(self).blink_outcome(id, coord),
            r.is_ok() ==> final(self).moved(old(self), id, coord),
            r.is_err() ==> *final(self) == *old(self),
    {
        let index = match self.find_entity(id) {
            Some(index) => index,
            None => {
                return Err(CancelAction::NoEntity);
            },
        };
        proof {
            lemma_find_entity(self.entities_spec(), index as int);
        }
        let entity = self.entities[index];
        let cell = match self.grid.get(coord) {
            Some(cell) => cell,
            None => {
                return Err(CancelAction::OutOfBounds);
            },
        };
        if cell.is_solid() {
            Err(CancelAction::MoveIntoSolidCell)
        } else if cell.contains_npc() {
            Err(CancelAction::MoveIntoNpc)
        } else {
            let from = entity.coord;
            if from.manhattan_distance(coord) <= BLINK_RANGE as u64 {
                self.move_entity_to_coord(index, coord);
                Ok(ApplyAction::Animation(Animation::blink(from)))
            } else {
                Err(CancelAction::OutOfRange)
            }
        }
    }

    /// What comes of the entity `id` striking in `direction`: the player
    /// strikes the first autonomous actor on the neighbouring cell.
    pub open spec fn bump_outcome(&self, id: EntityId, direction: CardinalDirection) -> Result<
        ApplyAction,
        CancelAction,
    > {
        match self.entity_spec(id) {
            None => Err(CancelAction::NoEntity),
            Some(e) => match e.coord.step_spec(direction) {
                None => Err(CancelAction::OutOfBounds),
                Some(to) => if !self.size_spec().contains_spec(to) {
                    Err(CancelAction::OutOfBounds)
                } else if e.player && self.cell_spec(to).contains_npc_spec() {
                    Ok(
                        ApplyAction::Animation(
                            Animation::damage_spec(
                                first_matching(
                                    self.cell_spec(to).occupants_spec(),
                                    OccupantKind::Npc,
                                ).unwrap(),
                                direction,
                            ),
                        ),
                    )
                } else {
                    Err(CancelAction::NothingToAttack)
                },
            },
        }
    }

    /// Lets the entity `id` strike in `direction`. The world does not
    /// change: the blow lands when its animation ends.
    pub fn bump_npc_in_direction(&self, id: EntityId, direction: CardinalDirection) -> (r: Result<
        ApplyAction,
        CancelAction,
    >)
        requires
            self.wf(),
        ensures
            r == self.bump_outcome(id, direction),
    {
        let entity = match self.entity(id) {
            Some(entity) => entity,
            None => {
                return Err(CancelAction::NoEntity);
            },
        };
        let coord = match entity.coord.step(direction) {
            Some(coord) => coord,
            None => {
                return Err(CancelAction::OutOfBounds);
            },
        };
        match self.grid.get(coord) {
            Some(cell) => {
                if entity.player && cell.contains_npc() {
                    let npc_id = cell.first_of(OccupantKind::Npc).unwrap();
                    Ok(ApplyAction::Animation(Animation::damage(npc_id, direction)))
                } else {
                    Err(CancelAction::NothingToAttack)
                }
            },
            None => Err(CancelAction::OutOfBounds),
        }
    }

    /// What the projectile `id` meets on its next step in `direction`.
    pub open spec fn projectile_outcome(&self, id: EntityId, direction: CardinalDirection)
        -> Result<ProjectileMove, CancelAction> {
        match self.entity_spec(id) {
            None => Err(CancelAction::NoEntity),
            Some(e) => match e.coord.step_spec(direction) {
                None => Err(CancelAction::OutOfBounds),
                Some(to) => if !self.size_spec().contains_spec(to) {
                    Err(CancelAction::OutOfBounds)
                } else {
                    let cell = self.cell_spec(to);
                    if cell.contains_player_spec() || cell.contains_npc_spec() {
                        Ok(
                            ProjectileMove::HitCharacter(
                                first_matching(
                                    cell.occupants_spec(),
                                    OccupantKind::Character,
                                ).unwrap(),
                            ),
                        )
                    } else if cell.is_solid_spec() {
                        Ok(ProjectileMove::HitObstacle)
                    } else {
                        Ok(ProjectileMove::Continue)
                    }
                },
            },
        }
    }

    pub fn can_move_projectile_in_direction(
        &self,
        id: EntityId,
        direction: CardinalDirection,
    ) -> (r: Result<ProjectileMove, CancelAction>)
        requires
            self.wf(),
        ensures
            r == self.projectile_outcome(id, direction),
    {
        let entity = match self.entity(id) {
            Some(entity) => entity,
            None => {
                return Err(CancelAction::NoEntity);
            },
        };
        let coord = match entity.coord.step(direction) {
            Some(coord) => coord,
            None => {
                return Err(CancelAction::OutOfBounds);
            },
        };
        match self.grid.get(coord) {
            Some(cell) => {
                match cell.first_of(OccupantKind::Character) {
                    Some(character) => {
                        proof {
                            lemma_character(cell.occupants_spec());
                        }
                        Ok(ProjectileMove::HitCharacter(character))
                    },
                    None => {
                        proof {
                            lemma_character(cell.occupants_spec());
                        }
                        if cell.is_solid() {
                            Ok(ProjectileMove::HitObstacle)
                        } else {
                            Ok(ProjectileMove::Continue)
                        }
                    },
                }
            },
            None => Err(CancelAction::OutOfBounds),
        }
    }

    /// Lets the entity `id` loose a spark in `direction`: a new entity on
    /// the neighbouring cell, and the animation that makes it fly.
    pub fn spark_in_direction(&mut self, id: EntityId, direction: CardinalDirection) -> (r: Result<
        ApplyAction,
        CancelAction,
    >)
        requires
            old(self).wf(),
            old(self).next_id_spec() < u64::MAX,
            old(self).next_light_id_spec() < u64::MAX,
        ensures
            players_kept(old(self).entities_spec(), final(self).entities_spec()),
            final(self).wf(),
            match old(self).entity_spec(id) {
                None => r == Err::<ApplyAction, CancelAction>(CancelAction::NoEntity)
                    && *final(self) == *old(self),
                Some(e) => match e.coord.step_spec(direction) {
                    None => r == Err::<ApplyAction, CancelAction>(CancelAction::OutOfBounds)
                        && *final(self) == *old(self),
                    Some(to) => r == Ok::<ApplyAction, CancelAction>(
                        ApplyAction::Animation(
                            Animation::spark_spec(old(self).next_id_spec(), direction),
                        ),
                    ) && final(self).added(old(self), to, PackedEntity::spark_spec()),
                },
            },
    {
        let entity = match self.entity(id) {
            Some(entity) => entity,
            None => {
                return Err(CancelAction::NoEntity);
            },
        };
        match entity.coord.step(direction) {
            Some(to) => {
                let spark = self.add_entity(to, PackedEntity::spark());
                Ok(ApplyAction::Animation(Animation::spark(spark, direction)))
            },
            None => Err(CancelAction::OutOfBounds),
        }
    }

    /// Carries out one instruction of a level's description. The cell of
    /// a `SetBackground` lies inside the grid.
    pub fn interpret_instruction(&mut self, instruction: Instruction)
        requires
            old(self).wf(),
            old(self).next_id_spec() < u64::MAX,
            old(self).next_light_id_spec() < u64::MAX,
            match instruction {
                Instruction::SetBackground(coord, _) => old(self).size_spec().contains_spec(coord),
                Instruction::AddEntity(_, _) => true,
            },
        ensures
            final(self).wf(),
            match instruction {
                Instruction::SetBackground(coord, tile) => final(self).paved(old(self), coord,
                    tile),
                Instruction::AddEntity(coord, packed) => final(self).added(old(self), coord,
                    packed),
            },
            players_kept(old(self).entities_spec(), final(self).entities_spec()),
    {
        match instruction {
            Instruction::SetBackground(coord, background_tile) => {
                self.set_background(coord, background_tile);
            },
            Instruction::AddEntity(coord, packed_entity) => {
                self.add_entity(coord, packed_entity);
            },
        }
    }
}

} // verus!
