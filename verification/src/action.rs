//! What an action on the world comes to: done, an animation to play, an
//! entity to interact with, or the reason why it was called off.

use vstd::prelude::*;
use crate::entity::EntityId;
use crate::geometry::{CardinalDirection, Coordinate};

verus! {

/// How far a spark flies.
pub const PROJECTILE_RANGE: u32 = 12;

/// Why an action was called off. Nothing has changed when one is returned.
#[derive(Clone, Copy, Debug, PartialEq, Eq, Structural)]
pub enum CancelAction {
    MoveIntoSolidCell,
    MoveIntoNpc,
    OutOfBounds,
    OutOfRange,
    DestinationNotVisible,
    LocationBlocked,
    NoEntity,
    NoField,
    NothingToAttack,
    AlreadyFullHitPoints,
    InvalidCard,
    NotEnoughEnergy,
}

/// What a projectile meets on its next step.
#[derive(Clone, Copy, Debug, PartialEq, Eq, Structural)]
pub enum ProjectileMove {
    Continue,
    HitObstacle,
    HitCharacter(EntityId),
}

/// Where an animation stands.
#[derive(Clone, Copy, Debug, PartialEq, Eq, Structural)]
pub enum AnimationState {
    DamageStart { id: EntityId, direction: CardinalDirection },
    DamageEnd { id: EntityId },
    BlinkStart { coord: Coordinate },
    Blink { id: EntityId, stage: u8 },
    Projectile { id: EntityId, direction: CardinalDirection, remaining_range: u32 },
    GlowFadeIn { id: EntityId, remaining_frames: u32, total_frames: u32 },
}

/// An animation that waits for its next step. Times are in nanoseconds.
#[derive(Clone, Copy, Debug, PartialEq, Eq, Structural)]
pub struct Animation {
    pub next_update_in: u64,
    pub state: AnimationState,
}

/// What an action that went through asks of the engine next.
#[derive(Clone, Copy, Debug, PartialEq, Eq, Structural)]
pub enum ApplyAction {
    Done,
    Animation(Animation),
    Interact(EntityId),
}

impl Animation {
    pub fn new(next_update_in: u64, state: AnimationState) -> (r: Animation)
        ensures
            r == (Animation { next_update_in, state }),
    {
        Animation { next_update_in, state }
    }

    pub open spec fn damage_spec(id: EntityId, direction: CardinalDirection) -> Animation {
        Animation { next_update_in: 0, state: AnimationState::DamageStart { id, direction } }
    }

    /// The entity `id` takes a blow that comes in `direction`.
    pub fn damage(id: EntityId, direction: CardinalDirection) -> (r: Animation)
        ensures
            r == Animation::damage_spec(id, direction),
    {
        Animation::new(0, AnimationState::DamageStart { id, direction })
    }

    pub open spec fn blink_spec(coord: Coordinate) -> Animation {
        Animation { next_update_in: 0, state: AnimationState::BlinkStart { coord } }
    }

    /// The flash that a teleport leaves at `coord`.
    pub fn blink(coord: Coordinate) -> (r: Animation)
        ensures
            r == Animation::blink_spec(coord),
    {
        Animation::new(0, AnimationState::BlinkStart { coord })
    }

    pub open spec fn spark_spec(id: EntityId, direction: CardinalDirection) -> Animation {
        Animation {
            next_update_in: 0,
            state: AnimationState::Projectile {
                id,
                direction,
                remaining_range: PROJECTILE_RANGE,
            },
        }
    }

    /// The projectile `id` flies in `direction`.
    pub fn spark(id: EntityId, direction: CardinalDirection) -> (r: Animation)
        ensures
            r == Animation::spark_spec(id, direction),
    {
        Animation::new(
            0,
            AnimationState::Projectile { id, direction, remaining_range: PROJECTILE_RANGE },
        )
    }

    pub open spec fn glow_fade_out_spec(id: EntityId, remaining_frames: u32) -> Animation {
        Animation {
            next_update_in: 0,
            state: AnimationState::GlowFadeIn {
                id,
                remaining_frames,
                total_frames: remaining_frames,
            },
        }
    }

    /// The glow `id` fades over `remaining_frames` frames.
    pub fn glow_fade_out(id: EntityId, remaining_frames: u32) -> (r: Animation)
        ensures
            r == Animation::glow_fade_out_spec(id, remaining_frames),
    {
        Animation::new(
            0,
            AnimationState::GlowFadeIn { id, remaining_frames, total_frames: remaining_frames },
        )
    }
}

} // verus!
