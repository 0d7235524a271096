//! How an animation moves on: each step changes the world a little and
//! says what comes next.

use vstd::prelude::*;
use crate::action::{Animation, AnimationState, CancelAction, ProjectileMove};
use crate::colour::Rgb24;
use crate::entity::{Entity, ForegroundTile, PackedEntity, Rational};
use crate::world::World;
use crate::world::tables::players_kept;

verus! {

/// How long a blow shows, in nanoseconds.
pub const DAMAGE_ANIMATION_PERIOD: u64 = 250_000_000;

/// How long each stage of a teleport's flash shows.
pub const BLINK_ANIMATION_PERIOD: u64 = 50_000_000;

/// How long a projectile rests on each cell.
pub const PROJECTILE_ANIMATION_PERIOD: u64 = 50_000_000;

/// How long each frame of a glow shows.
pub const GLOW_FADE_IN_PERIOD: u64 = 50_000_000;

/// The animation that follows a step from `state` in `world`, if any does.
pub open spec fn next_animation(world: &World, state: AnimationState) -> Option<Animation> {
    match state {
        AnimationState::DamageStart { id, direction } => Some(
            Animation {
                next_update_in: DAMAGE_ANIMATION_PERIOD,
                state: AnimationState::DamageEnd { id },
            },
        ),
        AnimationState::DamageEnd { id } => None,
        AnimationState::BlinkStart { coord } => Some(
            Animation {
                next_update_in: BLINK_ANIMATION_PERIOD,
                state: AnimationState::Blink { id: world.next_id_spec(), stage: 0 },
            },
        ),
        AnimationState::Blink { id, stage } => if stage == 0 {
            Some(
                Animation {
                    next_update_in: BLINK_ANIMATION_PERIOD,
                    state: AnimationState::Blink { id, stage: 1 },
                },
            )
        } else {
            None
        },
        AnimationState::Projectile { id, direction, remaining_range } => {
            if world.projectile_outcome(id, direction) == Ok::<ProjectileMove, CancelAction>(
                ProjectileMove::Continue,
            ) && remaining_range > 0 {
                Some(
                    Animation {
                        next_update_in: PROJECTILE_ANIMATION_PERIOD,
                        state: AnimationState::Projectile {
                            id,
                            direction,
                            remaining_range: (remaining_range - 1) as u32,
                        },
                    },
                )
            } else {
                None
            }
        },
        AnimationState::GlowFadeIn { id, remaining_frames, total_frames } => if remaining_frames
            == 0 {
            None
        } else {
            Some(
                Animation {
                    next_update_in: GLOW_FADE_IN_PERIOD,
                    state: AnimationState::GlowFadeIn {
                        id,
                        remaining_frames: (remaining_frames - 1) as u32,
                        total_frames,
                    },
                },
            )
        },
    }
}

/// The denominator that the falloff of a glow has with `remaining_frames`
/// of `total_frames` frames to go: 1 at first, and one more with each frame.
pub open spec fn glow_denom(remaining_frames: u32, total_frames: u32) -> u32 {
    if total_frames >= remaining_frames {
        (total_frames - remaining_frames + 1) as u32
    } else {
        1
    }
}

/// Whether `after` is `before` after a step of an animation from `state`.
///
/// A blow marks its target, then unmarks it and takes one hit point from
/// it. A teleport's flash is an entity that shows for two stages, the
/// second dimmer than the first, and is gone. A projectile flies one cell as
/// long as nothing is in its way and its range lasts; else it is gone, and
/// the character in its way has lost one hit point. A glow gets dimmer frame
/// by frame and is gone.
pub open spec fn stepped(before: &World, after: &World, state: AnimationState) -> bool {
    match state {
        AnimationState::DamageStart { id, direction } => match before.entity_spec(id) {
            Some(e) => after.retouched(
                before,
                id,
                Entity { taking_damage_in_direction: Some(direction), ..e },
            ),
            None => *after == *before,
        },
        AnimationState::DamageEnd { id } => exists|mid: World|
            {
                &&& #[trigger] mid.wf()
                &&& match before.entity_spec(id) {
                    Some(e) => mid.retouched(
                        before,
                        id,
                        Entity { taking_damage_in_direction: None, ..e },
                    ),
                    None => mid == *before,
                }
                &&& after.damaged(&mid, id, 1)
            },
        AnimationState::BlinkStart { coord } => after.added(
            before,
            coord,
            PackedEntity::blink_spec(),
        ),
        AnimationState::Blink { id, stage } => if stage == 0 {
            exists|mid: World|
                {
                    &&& #[trigger] mid.wf()
                    &&& mid.shown_as(before, id, ForegroundTile::Blink1)
                    &&& after.light_params_set(
                        &mid,
                        id,
                        Rgb24 { r: 0, g: 128, b: 128 },
                        Rational { num: 1, denom: 5 },
                    )
                }
        } else {
            after.gone(before, id)
        },
        AnimationState::Projectile { id, direction, remaining_range } => {
            match before.projectile_outcome(id, direction) {
                Ok(ProjectileMove::Continue) => if remaining_range > 0 {
                    after.moved(
                        before,
                        id,
                        before.entity_spec(id).unwrap().coord.step_spec(direction).unwrap(),
                    )
                } else {
                    after.gone(before, id)
                },
                Ok(ProjectileMove::HitCharacter(target)) => exists|mid: World|
                    {
                        &&& #[trigger] mid.wf()
                        &&& mid.damaged(before, target, 1)
                        &&& after.gone(&mid, id)
                    },
                _ => after.gone(before, id),
            }
        },
        AnimationState::GlowFadeIn { id, remaining_frames, total_frames } => if remaining_frames
            == 0 {
            after.gone(before, id)
        } else {
            after.light_denom_set(before, id, glow_denom(remaining_frames, total_frames))
        },
    }
}

impl AnimationState {
    /// Takes the step of the animation in `world` and returns what follows
    /// it: see [`stepped`] and [`next_animation`].
    pub fn update(self, world: &mut World) -> (r: Option<Animation>)
        requires
            old(world).wf(),
            old(world).next_id_spec() < u64::MAX,
            old(world).next_light_id_spec() < u64::MAX,
        ensures
            final(world).wf(),
            r == next_animation(old(world), self),
            stepped(old(world), final(world), self),
            final(world).size_spec() == old(world).size_spec(),
            final(world).entities_spec().len() <= old(world).entities_spec().len() + 1,
            final(world).next_id_spec() >= old(world).next_id_spec(),
            final(world).next_id_spec() <= old(world).next_id_spec() + 1,
            final(world).next_light_id_spec() >= old(world).next_light_id_spec(),
            final(world).next_light_id_spec() <= old(world).next_light_id_spec() + 1,
            players_kept(old(world).entities_spec(), final(world).entities_spec()),
    {
        match self {
            AnimationState::DamageStart { id, direction } => {
                if world.entity(id).is_some() {
                    world.set_taking_damage_in_direction(id, Some(direction));
                }
                Some(Animation::new(DAMAGE_ANIMATION_PERIOD, AnimationState::DamageEnd { id }))
            },
            AnimationState::DamageEnd { id } => {
                if world.entity(id).is_some() {
                    world.set_taking_damage_in_direction(id, None);
                }
                let ghost mid = *world;
                world.deal_damage(id, 1);
                proof {
                    assert(mid.wf());
                    crate::world::tables::lemma_players_kept_twice(
                        old(world).entities_spec(),
                        mid.entities_spec(),
                        world.entities_spec(),
                    );
                }
                None
            },
            AnimationState::BlinkStart { coord } => {
                let id = world.add_entity(coord, PackedEntity::blink());
                Some(
                    Animation::new(BLINK_ANIMATION_PERIOD, AnimationState::Blink { id, stage: 0 }),
                )
            },
            AnimationState::Blink { id, stage } => {
                if stage == 0 {
                    world.set_foreground(id, ForegroundTile::Blink1);
                    let ghost mid = *world;
                    world.set_light_params(id, Rgb24::new(0, 128, 128), Rational::new(1, 5));
                    proof {
                        assert(mid.wf());
                        crate::world::tables::lemma_players_kept_twice(
                            old(world).entities_spec(),
                            mid.entities_spec(),
                            world.entities_spec(),
                        );
                    }
                    Some(
                        Animation::new(
                            BLINK_ANIMATION_PERIOD,
                            AnimationState::Blink { id, stage: 1 },
                        ),
                    )
                } else {
                    world.remove_entity(id);
                    None
                }
            },
            AnimationState::Projectile { id, direction, remaining_range } => {
                let next = match world.can_move_projectile_in_direction(id, direction) {
                    Err(_) => None,
                    Ok(ProjectileMove::HitObstacle) => None,
                    Ok(ProjectileMove::HitCharacter(target)) => {
                        world.deal_damage(target, 1);
                        None
                    },
                    Ok(ProjectileMove::Continue) => {
                        if remaining_range == 0 {
                            None
                        } else {
                            Some(
                                Animation::new(
                                    PROJECTILE_ANIMATION_PERIOD,
                                    AnimationState::Projectile {
                                        remaining_range: remaining_range - 1,
                                        direction,
                                        id,
                                    },
                                ),
                            )
                        }
                    },
                };
                let ghost mid = *world;
                if next.is_none() {
                    world.remove_entity(id);
                } else {
                    world.move_entity_in_direction(id, direction);
                }
                proof {
                    assert(mid.wf());
                    crate::world::tables::lemma_players_kept_twice(
                        old(world).entities_spec(),
                        mid.entities_spec(),
                        world.entities_spec(),
                    );
                }
                next
            },
            AnimationState::GlowFadeIn { id, remaining_frames, total_frames } => {
                if remaining_frames == 0 {
                    world.remove_entity(id);
                    None
                } else {
                    let denom = if total_frames >= remaining_frames {
                        total_frames - remaining_frames + 1
                    } else {
                        1
                    };
                    world.set_light_diminish_denom(id, denom);
                    Some(
                        Animation::new(
                            GLOW_FADE_IN_PERIOD,
                            AnimationState::GlowFadeIn {
                                remaining_frames: remaining_frames - 1,
                                total_frames,
                                id,
                            },
                        ),
                    )
                }
            },
        }
    }
}

impl Animation {
    /// Lets `period` nanoseconds pass: the animation takes its step where
    /// its time has come, and waits that much less where it has not.
    pub fn tick(self, period: u64, world: &mut World) -> (r: Option<Animation>)
        requires
            old(world).wf(),
            old(world).next_id_spec() < u64::MAX,
            old(world).next_light_id_spec() < u64::MAX,
        ensures
            final(world).wf(),
            final(world).size_spec() == old(world).size_spec(),
            players_kept(old(world).entities_spec(), final(world).entities_spec()),
            final(world).entities_spec().len() <= old(world).entities_spec().len() + 1,
            final(world).next_id_spec() >= old(world).next_id_spec(),
            final(world).next_id_spec() <= old(world).next_id_spec() + 1,
            final(world).next_light_id_spec() >= old(world).next_light_id_spec(),
            final(world).next_light_id_spec() <= old(world).next_light_id_spec() + 1,
            if period >= self.next_update_in {
                r == next_animation(old(world), self.state) && stepped(
                    old(world),
                    final(world),
                    self.state,
                )
            } else {
                &&& *final(world) == *old(world)
                &&& r == Some(
                    Animation {
                        next_update_in: (self.next_update_in - period) as u64,
                        state: self.state,
                    },
                )
            },
    {
        if period >= self.next_update_in {
            self.state.update(world)
        } else {
            Some(Animation { next_update_in: self.next_update_in - period, state: self.state })
        }
    }
}

} // verus!
