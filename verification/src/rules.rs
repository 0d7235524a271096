//! What each step of a level makes of the level: the relations that the
//! contracts of the level's functions are stated in.

use vstd::prelude::*;
use crate::action::{Animation, ApplyAction, CancelAction};
use crate::animation::{next_animation, stepped};
use crate::cards::{
    burns,
    card_cost,
    cards_in_hand,
    hand_drawn,
    first_card,
    initial_deck,
    with_copies,
    Card,
    CardParam,
    DrawCountdown,
};
use crate::colour::Rgb24;
use crate::entity::{Entity, EntityId, ForegroundTile, PackedEntity};
use crate::game::{
    BetweenLevels,
    CharacterUpgrade,
    End,
    Gws,
    Input,
    Interactive,
    InteractiveParam,
    InteractiveType,
    Tick,
    Turn,
    INITIAL_DRAW_COUNTDOWN,
};
use crate::geometry::Coordinate;
use crate::intent::{npc_intent, wounded};
use crate::pathfinding::{CommitmentType, CommittedAction, PathfindingContext};
use crate::terrain::{built, TerrainDescription};
use crate::vision::{mark_seen, shine_all, sweep_of, VISION_DISTANCE_SQUARED};
use crate::world::World;
use crate::world::tables::npc_ids_of;

verus! {

/// Whether `entity` is there and shows as `tile`.
pub open spec fn shows(entity: Option<Entity>, tile: ForegroundTile) -> bool {
    entity.is_some() && entity.unwrap().foreground_tile == Some(tile)
}

/// Whether `entity` is there and is the kind of interactive thing `typ`.
pub open spec fn shows_as(entity: Option<Entity>, typ: InteractiveType) -> bool {
    shows(
        entity,
        match typ {
            InteractiveType::Flame => ForegroundTile::Flame,
            InteractiveType::Altar => ForegroundTile::Altar,
            InteractiveType::Fountain => ForegroundTile::Fountain,
        },
    )
}

/// The kind of interactive thing that `entity` is, if it is there and is one.
pub open spec fn met(entity: Option<Entity>) -> Option<InteractiveType> {
    match entity {
        Some(e) => match e.foreground_tile {
            Some(ForegroundTile::Flame) => Some(InteractiveType::Flame),
            Some(ForegroundTile::Altar) => Some(InteractiveType::Altar),
            Some(ForegroundTile::Fountain) => Some(InteractiveType::Fountain),
            _ => None,
        },
        None => None,
    }
}

/// Whether `r` says how the level `game` has ended, or that it has not:
/// the player has reached the stairs and goes on with what
/// [`Gws::between_levels`] gives, or has no hit points left.
pub open spec fn level_end(game: &Gws, r: Option<End>) -> bool {
    match r {
        Some(End::ExitLevel(next)) => {
            &&& game.on_stairs()
            &&& next.wf()
            &&& next.player == game.world_spec().packed_spec(game.player_id_spec())
            &&& next.deck@ == game.deck_spec() + game.spent_spec() + game.waste_spec()
                + cards_in_hand(game.hand_spec())
            &&& next.burnt@ == game.burnt_spec()
            &&& next.hand_size == game.hand_spec().len()
            &&& next.max_draw_countdown == game.draw_countdown_spec().max
        },
        Some(End::PlayerDied) => !game.on_stairs()
            && game.player_spec().hit_points.unwrap().current == 0,
        None => !game.on_stairs() && game.player_spec().hit_points.unwrap().current != 0,
    }
}

/// Whether `after` is `before` after the player has looked around: the
/// visibility field is recomputed from where the player stands.
pub open spec fn looked_around(before: &Gws, after: &Gws) -> bool {
    let sight = before.visible_area_spec();
    &&& after.same_but_sight(before)
    &&& after.visible_area_spec().size_spec() == sight.size_spec()
    &&& after.visible_area_spec().epoch_spec() == sight.epoch_spec() + 1
    &&& after.visible_area_spec().cells_spec() == shine_all(
        mark_seen(
            sight.cells_spec(),
            sight.size_spec(),
            (sight.epoch_spec() + 1) as u64,
            sweep_of(
                &before.world_spec(),
                before.player_spec().coord,
                VISION_DISTANCE_SQUARED,
            ),
        ),
        sight.size_spec(),
        (sight.epoch_spec() + 1) as u64,
        before.world_spec().lights_spec(),
        &before.world_spec(),
    )
}

/// Whether `after` is `before` after a hand has been drawn.
pub open spec fn hand_dealt(before: &Gws, after: &Gws) -> bool {
    &&& after.same_but_cards(before)
    &&& after.spent_spec() == before.spent_spec()
    &&& after.burnt_spec() == before.burnt_spec()
    &&& after.draw_countdown_spec() == before.draw_countdown_spec()
    &&& (after.hand_spec(), after.deck_spec(), after.waste_spec()) == hand_drawn(
        before.hand_spec(),
        before.deck_spec(),
        before.waste_spec(),
    )
}

/// Whether the hand, the deck, the waste and the countdown of `after` are
/// what paying `cost` leaves of those given: the countdown has that much
/// less, or is full again, with a new hand drawn, where it has run out.
pub open spec fn paid_for(
    after: &Gws,
    hand: Seq<Option<Card>>,
    deck: Seq<Card>,
    waste: Seq<Card>,
    countdown: DrawCountdown,
    cost: u32,
) -> bool {
    if countdown.current <= cost {
        &&& (after.hand_spec(), after.deck_spec(), after.waste_spec()) == hand_drawn(
            hand,
            deck,
            waste,
        )
        &&& after.draw_countdown_spec() == (DrawCountdown {
            current: countdown.max,
            max: countdown.max,
        })
    } else {
        &&& after.hand_spec() == hand
        &&& after.deck_spec() == deck
        &&& after.waste_spec() == waste
        &&& after.draw_countdown_spec() == (DrawCountdown {
            current: (countdown.current - cost) as u32,
            max: countdown.max,
        })
    }
}

/// Whether the world `after` is what an altar's `upgrade` of the entity
/// `id` makes of `before`: more life, or a light that reaches farther.
pub open spec fn upgraded(
    before: &World,
    after: &World,
    upgrade: CharacterUpgrade,
    id: EntityId,
) -> bool {
    match upgrade {
        CharacterUpgrade::Life => after.max_hit_points_raised(before, id, 2),
        CharacterUpgrade::Vision => after.light_radius_raised(before, id, 30),
        _ => *after == *before,
    }
}

/// Whether `after` is `before` after the player has dealt with something
/// interactive as `param` says.
///
/// A flame burns the first spent card like the one chosen and takes a hit
/// point from the player. A fountain puts copies of a card into the deck.
/// An altar upgrades the player and puts a card into the deck. The deck is
/// shuffled when a card goes into it, and each of the three takes one hit
/// point from what was dealt with.
pub open spec fn interacted(before: &Gws, after: &Gws, param: InteractiveParam) -> bool {
    &&& after.visible_area_spec() == before.visible_area_spec()
    &&& after.pathfinding_spec() == before.pathfinding_spec()
    &&& after.player_id_spec() == before.player_id_spec()
    &&& after.animation_spec() == before.animation_spec()
    &&& after.turn_spec() == before.turn_spec()
    &&& after.waste_spec() == before.waste_spec()
    &&& match param {
        InteractiveParam::Flame { card, entity_id } => {
            let spent = before.spent_spec();
            &&& after.spent_spec() == spent.update(
                first_card(spent, card),
                spent.last(),
            ).drop_last()
            &&& after.burnt_spec() == before.burnt_spec().push(card)
            &&& after.deck_spec() == before.deck_spec()
            &&& after.hand_spec() == before.hand_spec()
            &&& after.draw_countdown_spec() == before.draw_countdown_spec()
            &&& exists|mid: World|
                {
                    &&& #[trigger] mid.wf()
                    &&& mid.damaged(&before.world_spec(), before.player_id_spec(), 1)
                    &&& after.world_spec().damaged(&mid, entity_id, 1)
                }
        },
        InteractiveParam::Fountain { card, entity_id, count } => {
            &&& after.deck_spec().to_multiset() == with_copies(
                before.deck_spec(),
                card,
                count as nat,
            ).to_multiset()
            &&& after.burnt_spec() == before.burnt_spec()
            &&& after.spent_spec() == before.spent_spec()
            &&& after.hand_spec() == before.hand_spec()
            &&& after.draw_countdown_spec() == before.draw_countdown_spec()
            &&& after.world_spec().damaged(&before.world_spec(), entity_id, 1)
        },
        InteractiveParam::Altar { character_upgrade, card, entity_id } => {
            &&& after.deck_spec().to_multiset() == before.deck_spec().push(card).to_multiset()
            &&& after.burnt_spec() == before.burnt_spec()
            &&& after.spent_spec() == before.spent_spec()
            &&& after.hand_spec() == if character_upgrade == CharacterUpgrade::Hand {
                before.hand_spec().push(None)
            } else {
                before.hand_spec()
            }
            &&& after.draw_countdown_spec() == if character_upgrade == CharacterUpgrade::Power {
                DrawCountdown {
                    current: before.draw_countdown_spec().current,
                    max: if before.draw_countdown_spec().max + 2 > u32::MAX {
                        u32::MAX
                    } else {
                        (before.draw_countdown_spec().max + 2) as u32
                    },
                }
            } else {
                before.draw_countdown_spec()
            }
            &&& exists|mid: World|
                {
                    &&& #[trigger] mid.wf()
                    &&& upgraded(
                        &before.world_spec(),
                        &mid,
                        character_upgrade,
                        before.player_id_spec(),
                    )
                    &&& after.world_spec().damaged(&mid, entity_id, 1)
                }
        },
    }
}

/// Whether the world `after` is what playing `card` on `param` makes of
/// that of `before`: a blink that goes through takes the player to its
/// cell, a spark is a new entity, a heal gives a hit point back, a parasite
/// takes two, and the other cards leave the world as it is.
pub open spec fn card_played(before: &Gws, after: &World, card: Card, param: CardParam) -> bool {
    let world = before.world_spec();
    let player = before.player_id_spec();
    match (card, param) {
        (Card::Blink, CardParam::Coord(coord)) => if before.blink_outcome(coord).is_ok() {
            after.moved(&world, player, coord)
        } else {
            *after == world
        },
        (Card::Spark, CardParam::CardinalDirection(direction)) => {
            match before.player_spec().coord.step_spec(direction) {
                Some(to) => after.added(&world, to, PackedEntity::spark_spec()),
                None => *after == world,
            }
        },
        (Card::Heal, _) => match World::healed(before.player_spec(), 1) {
            Ok(healed) => after.retouched(&world, player, healed),
            Err(_) => *after == world,
        },
        (Card::Parasite, _) => after.damaged(&world, player, 2),
        _ => *after == world,
    }
}

/// Whether `after` is `before` after the player's turn with `input`.
///
/// A move is a step under the rules of [`World::step_outcome`]. A card is
/// played from its slot if the countdown has the power it costs and it is
/// played on what it takes; it then goes to the spent pile, or to the burnt
/// one if it burns. A turn that goes through is paid for: a move or a wait
/// costs 1, a card its cost, and dealing with something interactive
/// nothing. Where the turn is called off, or the player walks into
/// something interactive, nothing has changed.
pub open spec fn turned(before: &Gws, after: &Gws, input: Input) -> bool {
    let r = before.turn_outcome(input);
    let pays = r.is_ok() && !(r matches Ok(ApplyAction::Interact(_)));
    &&& after.visible_area_spec() == before.visible_area_spec()
    &&& after.pathfinding_spec() == before.pathfinding_spec()
    &&& after.player_id_spec() == before.player_id_spec()
    &&& after.animation_spec() == before.animation_spec()
    &&& after.turn_spec() == before.turn_spec()
    &&& match input {
        Input::Interact(param) => exists|mid: Gws|
            {
                &&& #[trigger] interacted(before, &mid, param)
                &&& after.world_spec() == mid.world_spec()
                &&& after.spent_spec() == mid.spent_spec()
                &&& after.burnt_spec() == mid.burnt_spec()
                &&& paid_for(
                    after,
                    mid.hand_spec(),
                    mid.deck_spec(),
                    mid.waste_spec(),
                    mid.draw_countdown_spec(),
                    0,
                )
            },
        Input::Move(direction) => {
            &&& if r == Ok::<ApplyAction, CancelAction>(ApplyAction::Done) {
                after.world_spec().moved(
                    &before.world_spec(),
                    before.player_id_spec(),
                    before.player_spec().coord.step_spec(direction).unwrap(),
                )
            } else {
                after.world_spec() == before.world_spec()
            }
            &&& after.spent_spec() == before.spent_spec()
            &&& after.burnt_spec() == before.burnt_spec()
            &&& if pays {
                paid_for(
                    after,
                    before.hand_spec(),
                    before.deck_spec(),
                    before.waste_spec(),
                    before.draw_countdown_spec(),
                    1,
                )
            } else {
                after.unchanged(before)
            }
        },
        Input::Wait => {
            &&& after.world_spec() == before.world_spec()
            &&& after.spent_spec() == before.spent_spec()
            &&& after.burnt_spec() == before.burnt_spec()
            &&& paid_for(
                after,
                before.hand_spec(),
                before.deck_spec(),
                before.waste_spec(),
                before.draw_countdown_spec(),
                1,
            )
        },
        Input::PlayCard { slot, param } => match before.played(slot, param) {
            Err(_) => after.unchanged(before),
            Ok(card) => {
                &&& card_played(before, &after.world_spec(), card, param)
                &&& if pays {
                    &&& after.spent_spec() == if burns(card) {
                        before.spent_spec()
                    } else {
                        before.spent_spec().push(card)
                    }
                    &&& after.burnt_spec() == if burns(card) {
                        before.burnt_spec().push(card)
                    } else {
                        before.burnt_spec()
                    }
                    &&& paid_for(
                        after,
                        before.hand_spec().update(slot as int, None),
                        before.deck_spec(),
                        before.waste_spec(),
                        before.draw_countdown_spec(),
                        card_cost(card),
                    )
                } else {
                    after.unchanged(before)
                }
            },
        },
    }
}

/// Whether `after` is `before` after the actor `id` of `world` has
/// planned: it commits to what it means to do, if it is there and means to
/// do anything.
pub open spec fn planned(
    before: &PathfindingContext,
    after: &PathfindingContext,
    id: EntityId,
    world: &World,
    player_coord: Coordinate,
) -> bool {
    match world.entity_spec(id) {
        Some(npc) => match npc_intent(world, npc, player_coord) {
            Some(typ) => after.committed(before, id, world, typ),
            None => *after == *before,
        },
        None => *after == *before,
    }
}

/// Whether `states` are the states of the pathfinding before, between and
/// after the plans of the actors `ids`, each in its turn.
pub open spec fn planned_in_turn(
    states: Seq<PathfindingContext>,
    ids: Seq<EntityId>,
    world: &World,
    player_coord: Coordinate,
) -> bool {
    &&& states.len() == ids.len() + 1
    &&& forall|k: int|
        0 <= k < ids.len() ==> planned(
            &states[k],
            &states[k + 1],
            #[trigger] ids[k],
            world,
            player_coord,
        )
}

/// Whether `after` is `before` after the actors have planned their turn:
/// the distances to the player are recomputed and every claim released,
/// then each autonomous actor plans, in the order of the identities, and
/// the turn is the player's.
pub open spec fn planned_turn(before: &Gws, after: &Gws) -> bool {
    &&& after.same_but_plans(before)
    &&& after.turn_spec() == Turn::Player
    &&& exists|states: Seq<PathfindingContext>|
        {
            &&& #[trigger] planned_in_turn(
                states,
                npc_ids_of(before.world_spec().entities_spec()),
                &before.world_spec(),
                before.player_spec().coord,
            )
            &&& states.first().recomputed(
                &before.pathfinding_spec(),
                before.player_spec().coord,
                &before.world_spec(),
            )
            &&& states.last() == after.pathfinding_spec()
        }
}

/// There are no more autonomous actors than entities.
pub proof fn lemma_npc_ids_len(entities: Seq<Entity>)
    ensures
        npc_ids_of(entities).len() <= entities.len(),
    decreases entities.len(),
{
    if entities.len() > 0 {
        lemma_npc_ids_len(entities.drop_last());
    }
}

/// How far around it a healer heals, in steps.
pub const HEAL_RANGE: u32 = 10;

/// `e` after a healer at `coord` has healed around it.
pub open spec fn healed_around(e: Entity, coord: Coordinate) -> Entity {
    if e.npc && coord.manhattan_distance_spec(e.coord) < HEAL_RANGE && wounded(e) {
        match World::healed(e, 1) {
            Ok(healed) => healed,
            Err(_) => e,
        }
    } else {
        e
    }
}

/// Whether `after` is `before` after a healer at `coord` has healed around
/// it: each entity is what [`healed_around`] makes of it, and nothing else
/// has changed.
pub open spec fn healed_all(before: &World, after: &World, coord: Coordinate) -> bool {
    &&& after.size_spec() == before.size_spec()
    &&& after.next_id_spec() == before.next_id_spec()
    &&& after.next_light_id_spec() == before.next_light_id_spec()
    &&& after.lights_spec() == before.lights_spec()
    &&& after.cells_spec() == before.cells_spec()
    &&& after.entities_spec().len() == before.entities_spec().len()
    &&& forall|j: int|
        0 <= j < before.entities_spec().len() ==> #[trigger] after.entities_spec()[j]
            == healed_around(before.entities_spec()[j], coord)
}

/// The animation that an action's outcome starts, if it starts one.
pub open spec fn animation_of(outcome: Result<ApplyAction, CancelAction>) -> Option<Animation> {
    match outcome {
        Ok(ApplyAction::Animation(animation)) => Some(animation),
        _ => None,
    }
}

/// Whether `after` is `before` after an actor has carried out `action`,
/// which starts the animation `r` if it starts one.
///
/// An actor that has left the world does nothing. A move is a step under
/// the rules of [`World::step_outcome`]. A cast looses a spark. A healer
/// whose countdown has run out heals around it, forgets its countdown and
/// leaves a glow that fades; one whose countdown runs remembers it.
pub open spec fn acted(
    before: &World,
    after: &World,
    action: CommittedAction,
    r: Option<Animation>,
) -> bool {
    let (id, direction, typ) = action;
    match before.entity_spec(id) {
        None => r.is_none() && *after == *before,
        Some(e) => match typ {
            CommitmentType::Move => {
                let outcome = before.step_outcome(id, direction);
                &&& r == animation_of(outcome)
                &&& if outcome == Ok::<ApplyAction, CancelAction>(ApplyAction::Done) {
                    after.moved(before, id, e.coord.step_spec(direction).unwrap())
                } else {
                    *after == *before
                }
            },
            CommitmentType::Cast => match e.coord.step_spec(direction) {
                Some(to) => r == Some(Animation::spark_spec(before.next_id_spec(), direction))
                    && after.added(before, to, PackedEntity::spark_spec()),
                None => r.is_none() && *after == *before,
            },
            CommitmentType::Heal(count) => if count == 0 {
                exists|healed: World, rested: World|
                    #![trigger healed.wf(), rested.wf()]
                    {
                        &&& healed.wf()
                        &&& rested.wf()
                        &&& healed_all(before, &healed, e.coord)
                        &&& rested.heal_countdown_set(&healed, id, None)
                        &&& after.added(
                            &rested,
                            e.coord,
                            PackedEntity::glow_spec(Rgb24 { r: 255, g: 255, b: 0 }),
                        )
                        &&& r == Some(Animation::glow_fade_out_spec(rested.next_id_spec(), 10))
                    }
            } else {
                r.is_none() && after.retouched(
                    before,
                    id,
                    Entity { heal_countdown: Some(count), ..e },
                )
            },
        },
    }
}

/// Whether `worlds` are the worlds before, between and after the actions
/// of a turn, and `results` the animations that the actions started.
pub open spec fn acted_in_turn(
    worlds: Seq<World>,
    results: Seq<Option<Animation>>,
    actions: Seq<CommittedAction>,
) -> bool {
    &&& worlds.len() == actions.len() + 1
    &&& results.len() == actions.len()
    &&& forall|k: int|
        0 <= k < actions.len() ==> acted(
            &worlds[k],
            &worlds[k + 1],
            #[trigger] actions[k],
            results[k],
        )
}

/// The animations among `results`, in their order.
pub open spec fn started(results: Seq<Option<Animation>>) -> Seq<Animation>
    decreases results.len(),
{
    if results.len() == 0 {
        Seq::empty()
    } else {
        match results.last() {
            Some(animation) => started(results.drop_last()).push(animation),
            None => started(results.drop_last()),
        }
    }
}

/// Whether `after` is `before` after the actors have carried out what
/// they committed to, each in its turn, and every claim is released.
pub open spec fn engine_turned(before: &Gws, after: &Gws) -> bool {
    let plans = before.pathfinding_spec();
    &&& after.same_but_world_and_plans(before)
    &&& after.pathfinding_spec().size_spec() == plans.size_spec()
    &&& after.pathfinding_spec().committed_actions_spec() == plans.committed_actions_spec()
    &&& after.pathfinding_spec().distances_spec() == plans.distances_spec()
    &&& after.pathfinding_spec().player_coord_spec() == plans.player_coord_spec()
    &&& after.pathfinding_spec().commitments_spec().epoch_spec()
        == plans.commitments_spec().epoch_spec() + 1
    &&& forall|c: Coordinate| !after.pathfinding_spec().commitments_spec().is_committed_spec(c)
    &&& exists|worlds: Seq<World>, results: Seq<Option<Animation>>|
        {
            &&& #[trigger] acted_in_turn(worlds, results, plans.committed_actions_spec())
            &&& worlds.first() == before.world_spec()
            &&& worlds.last() == after.world_spec()
            &&& after.animation_spec() == before.animation_spec() + started(results)
        }
}

/// Whether `after` is `before` after `period` nanoseconds have passed for
/// the animation that was started last: it has taken its step and given
/// way to what follows it, or it waits that much less.
pub open spec fn waited(before: &Gws, after: &Gws, period: u64) -> bool {
    &&& after.same_but_world_and_plans_and_turn(before)
    &&& after.pathfinding_spec() == before.pathfinding_spec()
    &&& after.turn_spec() == before.turn_spec()
    &&& if before.animation_spec().len() == 0 {
        &&& after.world_spec() == before.world_spec()
        &&& after.animation_spec() == before.animation_spec()
    } else {
        let animation = before.animation_spec().last();
        let others = before.animation_spec().drop_last();
        if period >= animation.next_update_in {
            &&& stepped(
                &before.world_spec(),
                &after.world_spec(),
                animation.state,
            )
            &&& after.animation_spec() == match next_animation(
                &before.world_spec(),
                animation.state,
            ) {
                Some(next) => others.push(next),
                None => others,
            }
        } else {
            &&& after.world_spec() == before.world_spec()
            &&& after.animation_spec() == others.push(
                Animation {
                    next_update_in: (animation.next_update_in - period) as u64,
                    state: animation.state,
                },
            )
        }
    }
}

/// Whether `after` is `before` after `period` nanoseconds have passed:
/// the last animation has moved on, and where none is left and it is the
/// engine's turn, the actors have planned.
pub open spec fn animated(before: &Gws, after: &Gws, period: u64) -> bool {
    exists|mid: Gws|
        {
            &&& #[trigger] waited(before, &mid, period)
            &&& mid.wf()
            &&& if mid.animation_spec().len() == 0 && mid.turn_spec() == Turn::Engine {
                planned_turn(&mid, after)
            } else {
                *after == mid
            }
        }
}

/// Whether `after` is `before` but for the turn, which is the engine's, and
/// for `animation`, which waits as the last if it is there.
pub open spec fn handed_over(before: &Gws, after: &Gws, animation: Option<Animation>) -> bool {
    &&& after.same_but_world_and_plans_and_turn(before)
    &&& after.world_spec() == before.world_spec()
    &&& after.pathfinding_spec() == before.pathfinding_spec()
    &&& after.turn_spec() == Turn::Engine
    &&& after.animation_spec() == match animation {
        Some(animation) => before.animation_spec().push(animation),
        None => before.animation_spec(),
    }
}

/// Whether `after` is `before` after the rest of a tick, which tells `r`:
/// the engine's turn, where no animation waits and it is the engine's; the
/// last animation, and the actors' plans if none is left; the player's
/// look around; and how the level has ended, if it has.
pub open spec fn finished(before: &Gws, after: &Gws, r: Option<Tick>) -> bool {
    exists|acted: Gws, settled: Gws|
        #![trigger acted.wf(), settled.wf()]
        {
            &&& acted.wf()
            &&& settled.wf()
            &&& if before.animation_spec().len() == 0 && before.turn_spec() == Turn::Engine {
                engine_turned(before, &acted)
            } else {
                acted == *before
            }
            &&& animated(&acted, &settled, 0)
            &&& looked_around(&settled, after)
            &&& match r {
                Some(Tick::End(end)) => level_end(after, Some(end)),
                None => level_end(after, None),
                _ => false,
            }
        }
}

/// Whether the tick tells that the player's turn was called off for `cancel`.
pub open spec fn tells_cancel(r: Option<Tick>, cancel: CancelAction) -> bool {
    match r {
        Some(Tick::CancelAction(c)) => c == cancel,
        _ => false,
    }
}

/// Whether the tick tells that the player has walked into `interactive`.
pub open spec fn tells_interactive(r: Option<Tick>, interactive: Interactive) -> bool {
    match r {
        Some(Tick::Interact(i)) => i == interactive,
        _ => false,
    }
}

/// Whether `after` is `before` after a tick of `period` nanoseconds with
/// `input`, which tells `r`.
///
/// The waiting animation moves on. When none is left and it is the
/// player's turn, the turn is taken with `input`, if there is one. A turn
/// that is called off ends the tick, and so does a step into something
/// interactive, either with its reason. A turn that goes through hands over
/// to the engine, with the animation it started, and the rest of the tick
/// follows: see [`finished`].
pub open spec fn ticked(
    before: &Gws,
    after: &Gws,
    input: Option<Input>,
    period: u64,
    r: Option<Tick>,
) -> bool {
    exists|moved_on: Gws|
        {
            &&& #[trigger] animated(before, &moved_on, period)
            &&& moved_on.wf()
            &&& if moved_on.animation_spec().len() == 0 && moved_on.turn_spec() == Turn::Player
                && input.is_some() {
                exists|played: Gws|
                    {
                        &&& #[trigger] turned(&moved_on, &played, input.unwrap())
                        &&& played.wf()
                        &&& match moved_on.turn_outcome(input.unwrap()) {
                            Err(cancel) => *after == played && tells_cancel(r, cancel),
                            Ok(ApplyAction::Interact(entity_id)) => match met(
                                played.world_spec().entity_spec(entity_id),
                            ) {
                                Some(typ) => *after == played && tells_interactive(
                                    r,
                                    Interactive { entity_id, typ },
                                ),
                                None => finished(&played, after, r),
                            },
                            Ok(ApplyAction::Done) => exists|handed: Gws|
                                #[trigger] handed_over(&played, &handed, None) && finished(
                                    &handed,
                                    after,
                                    r,
                                ),
                            Ok(ApplyAction::Animation(animation)) => exists|handed: Gws|
                                #[trigger] handed_over(&played, &handed, Some(animation))
                                    && finished(&handed, after, r),
                        }
                    }
            } else {
                finished(&moved_on, after, r)
            }
        }
}

/// The player that a level starts with.
pub open spec fn carried_player(between_levels: Option<BetweenLevels>) -> PackedEntity {
    match between_levels {
        Some(carried) => carried.player,
        None => PackedEntity::player_spec(),
    }
}

/// The cards that a level starts with, before they are shuffled.
pub open spec fn carried_deck(between_levels: Option<BetweenLevels>) -> Seq<Card> {
    match between_levels {
        Some(carried) => carried.deck@,
        None => initial_deck(),
    }
}

/// The burnt cards that a level starts with.
pub open spec fn carried_burnt(between_levels: Option<BetweenLevels>) -> Seq<Card> {
    match between_levels {
        Some(carried) => carried.burnt@,
        None => Seq::empty(),
    }
}

/// The number of hand slots that a level starts with.
pub open spec fn carried_hand_size(between_levels: Option<BetweenLevels>) -> usize {
    match between_levels {
        Some(carried) => carried.hand_size,
        None => 5,
    }
}

/// The power that a full countdown has when a level starts.
pub open spec fn carried_countdown(between_levels: Option<BetweenLevels>) -> u32 {
    match between_levels {
        Some(carried) => carried.max_draw_countdown,
        None => INITIAL_DRAW_COUNTDOWN,
    }
}

/// Whether `game` is a level that has just been opened on the world
/// `built`: the player has come to it, nothing was seen or planned yet,
/// the hand is empty, the deck holds the cards carried over in some order,
/// and the countdown is full.
pub open spec fn opened(
    game: &Gws,
    built: &World,
    terrain: &TerrainDescription,
    between_levels: Option<BetweenLevels>,
) -> bool {
    &&& game.world_spec().added(built, terrain.player_coord, carried_player(between_levels))
    &&& game.player_id_spec() == built.next_id_spec()
    &&& game.visible_area_spec().is_new(terrain.size)
    &&& game.pathfinding_spec().is_new(terrain.size)
    &&& game.animation_spec() == Seq::<Animation>::empty()
    &&& game.turn_spec() == Turn::Player
    &&& game.hand_spec() == Seq::new(
        carried_hand_size(between_levels) as nat,
        |k: int| None::<Card>,
    )
    &&& game.deck_spec().to_multiset() == carried_deck(between_levels).to_multiset()
    &&& game.spent_spec() == Seq::<Card>::empty()
    &&& game.waste_spec() == Seq::<Card>::empty()
    &&& game.burnt_spec() == carried_burnt(between_levels)
    &&& game.draw_countdown_spec() == (DrawCountdown {
        current: carried_countdown(between_levels),
        max: carried_countdown(between_levels),
    })
}

/// Whether `game` is the level that `terrain` describes, as it starts: the
/// world is built by the instructions in their order, the level is opened
/// on it, the actors plan their first turn, the first hand is drawn and the
/// player looks around.
pub open spec fn level_started(
    game: &Gws,
    terrain: &TerrainDescription,
    between_levels: Option<BetweenLevels>,
) -> bool {
    exists|worlds: Seq<World>, fresh: Gws, planned: Gws, drawn: Gws|
        #![trigger built(worlds, terrain.instructions@), fresh.wf(), planned.wf(), drawn.wf()]
        {
            &&& worlds.first().is_new(terrain.size)
            &&& built(worlds, terrain.instructions@)
            &&& fresh.wf()
            &&& planned.wf()
            &&& drawn.wf()
            &&& opened(&fresh, &worlds.last(), terrain, between_levels)
            &&& planned_turn(&fresh, &planned)
            &&& hand_dealt(&planned, &drawn)
            &&& looked_around(&drawn, game)
        }
}

} // verus!
