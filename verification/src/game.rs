//! One level of the game: the world, what the player sees of it, the
//! actors' pathfinding, and the cards the player holds.

use vstd::prelude::*;
use crate::action::{Animation, ApplyAction, CancelAction};
use crate::cards::{
    append_cards,
    card_cost,
    card_takes,
    hand_drawn,
    cards_in_hand,
    choose_multiple,
    chosen_from,
    initial_deck,
    lemma_hand_drawn,
    negative_cards,
    negative_cards_spec,
    position_of_card,
    positive_cards,
    positive_cards_spec,
    push_copies,
    shuffle,
    Card,
    CardParam,
    DrawCountdown,
};
use crate::colour::Rgb24;
use crate::entity::{Entity, EntityId, ForegroundTile, PackedEntity};
use crate::geometry::{CardinalDirection, Coordinate};
use crate::intent::{intends, intent, is_wounded};
use crate::pathfinding::{
    is_distance_field,
    CommitmentGrid,
    CommitmentType,
    PathfindingContext,
};
use crate::rules::{
    acted,
    acted_in_turn,
    animated,
    carried_deck,
    carried_hand_size,
    engine_turned,
    finished,
    hand_dealt,
    handed_over,
    healed_all,
    healed_around,
    interacted,
    lemma_npc_ids_len,
    level_end,
    level_started,
    looked_around,
    opened,
    planned,
    planned_in_turn,
    planned_turn,
    shows,
    started,
    ticked,
    turned,
    waited,
    HEAL_RANGE,
};
use crate::terrain::{instructed, TerrainDescription};
use crate::vision::VisibileArea;
use crate::world::World;
use crate::world::tables::players_kept;

verus! {

/// How much power a new level's countdown starts with.
pub const INITIAL_DRAW_COUNTDOWN: u32 = 40;

/// The most slots a hand can have.
pub const MAX_NUM_CARDS: usize = 8;

/// The bound below which a level's counters leave room for a tick.
pub const ROOM: u64 = 0x1000_0000_0000_0000;

/// What the player asks for.
#[derive(Clone, Copy, Debug, PartialEq, Eq, Structural)]
pub enum Input {
    Move(CardinalDirection),
    PlayCard { slot: usize, param: CardParam },
    Wait,
    Interact(InteractiveParam),
}

#[derive(Clone, Copy, Debug, PartialEq, Eq, Structural)]
pub enum CharacterUpgrade {
    Life,
    Power,
    Hand,
    Vision,
}

#[derive(Clone, Copy, Debug, PartialEq, Eq, Structural)]
pub enum InteractiveType {
    Flame,
    Altar,
    Fountain,
}

/// Something the player has walked into and may now deal with.
#[derive(Clone, Copy, Debug, PartialEq, Eq, Structural)]
pub struct Interactive {
    pub entity_id: EntityId,
    pub typ: InteractiveType,
}

/// What the player chose to do with something interactive.
#[derive(Clone, Copy, Debug, PartialEq, Eq, Structural)]
pub enum InteractiveParam {
    Flame { card: Card, entity_id: EntityId },
    Altar { character_upgrade: CharacterUpgrade, card: Card, entity_id: EntityId },
    Fountain { card: Card, entity_id: EntityId, count: usize },
}

/// Whose turn it is.
#[derive(Clone, Copy, Debug, PartialEq, Eq, Structural)]
pub enum Turn {
    Player,
    Engine,
}

/// What the player carries from one level to the next.
pub struct BetweenLevels {
    pub player: PackedEntity,
    pub deck: Vec<Card>,
    pub burnt: Vec<Card>,
    pub hand_size: usize,
    pub max_draw_countdown: u32,
}

/// How a level ends.
pub enum End {
    ExitLevel(BetweenLevels),
    PlayerDied,
}

/// What a tick has to tell.
pub enum Tick {
    End(End),
    CancelAction(CancelAction),
    Interact(Interactive),
}

/// One level of the game.
pub struct Gws {
    world: World,
    visible_area: VisibileArea,
    pathfinding: PathfindingContext,
    player_id: EntityId,
    animation: Vec<Animation>,
    turn: Turn,
    hand: Vec<Option<Card>>,
    deck: Vec<Card>,
    spent: Vec<Card>,
    waste: Vec<Card>,
    burnt: Vec<Card>,
    draw_countdown: DrawCountdown,
}

/// What the renderer reads.
pub struct ToRender<'a> {
    pub world: &'a World,
    pub visible_area: &'a VisibileArea,
    pub player: Entity,
    pub commitment_grid: &'a CommitmentGrid,
}

/// The input that plays the card in `slot` on `param`.
pub fn play_card(slot: usize, param: CardParam) -> (r: Input)
    ensures
        r == (Input::PlayCard { slot, param }),
{
    Input::PlayCard { slot, param }
}

/// The input that deals with something interactive as `param` says.
pub fn interact(param: InteractiveParam) -> (r: Input)
    ensures
        r == Input::Interact(param),
{
    Input::Interact(param)
}

impl BetweenLevels {
    /// Whether a level can start from this: the player is a player with
    /// hit points.
    pub open spec fn wf(&self) -> bool {
        self.player.player && self.player.hit_points.is_some()
    }

    /// What the player has before the first level.
    pub fn initial() -> (r: BetweenLevels)
        ensures
            r.wf(),
            r.player == PackedEntity::player_spec(),
            r.deck@ == initial_deck(),
            r.burnt@ == Seq::<Card>::empty(),
            r.hand_size == 5,
            r.max_draw_countdown == INITIAL_DRAW_COUNTDOWN,
    {
        let mut deck: Vec<Card> = Vec::new();
        push_copies(&mut deck, Card::Spark, 5);
        push_copies(&mut deck, Card::Bump, 6);
        push_copies(&mut deck, Card::Heal, 5);
        push_copies(&mut deck, Card::Blink, 4);
        BetweenLevels {
            player: PackedEntity::player(),
            deck,
            burnt: Vec::new(),
            hand_size: 5,
            max_draw_countdown: INITIAL_DRAW_COUNTDOWN,
        }
    }
}

impl Gws {
    pub closed spec fn world_spec(&self) -> World {
        self.world
    }

    pub closed spec fn visible_area_spec(&self) -> VisibileArea {
        self.visible_area
    }

    pub closed spec fn pathfinding_spec(&self) -> PathfindingContext {
        self.pathfinding
    }

    pub closed spec fn player_id_spec(&self) -> EntityId {
        self.player_id
    }

    pub closed spec fn animation_spec(&self) -> Seq<Animation> {
        self.animation@
    }

    pub closed spec fn turn_spec(&self) -> Turn {
        self.turn
    }

    pub closed spec fn hand_spec(&self) -> Seq<Option<Card>> {
        self.hand@
    }

    pub closed spec fn deck_spec(&self) -> Seq<Card> {
        self.deck@
    }

    pub closed spec fn spent_spec(&self) -> Seq<Card> {
        self.spent@
    }

    pub closed spec fn waste_spec(&self) -> Seq<Card> {
        self.waste@
    }

    pub closed spec fn burnt_spec(&self) -> Seq<Card> {
        self.burnt@
    }

    pub closed spec fn draw_countdown_spec(&self) -> DrawCountdown {
        self.draw_countdown
    }

    /// The player, whom a level that keeps its invariant always has.
    pub open spec fn player_spec(&self) -> Entity {
        self.world_spec().entity_spec(self.player_id_spec()).unwrap()
    }

    /// The level's invariant: its parts keep theirs and have one size, and
    /// the player is in the world, is a player and has hit points.
    pub open spec fn wf(&self) -> bool {
        &&& self.world_spec().wf()
        &&& self.visible_area_spec().wf()
        &&& self.pathfinding_spec().wf()
        &&& self.visible_area_spec().size_spec() == self.world_spec().size_spec()
        &&& self.pathfinding_spec().size_spec() == self.world_spec().size_spec()
        &&& self.world_spec().entity_spec(self.player_id_spec()).is_some()
        &&& self.player_spec().player
        &&& self.player_spec().hit_points.is_some()
    }

    /// Whether the counters of the level leave room for one more tick:
    /// epochs and identities are far enough below their greatest values.
    pub open spec fn has_room(&self) -> bool {
        &&& self.world_spec().next_id_spec() < ROOM
        &&& self.world_spec().next_light_id_spec() < ROOM
        &&& self.world_spec().entities_spec().len() < ROOM
        &&& self.pathfinding_spec().committed_actions_spec().len() < ROOM
        &&& self.visible_area_spec().epoch_spec() < u64::MAX
        &&& self.pathfinding_spec().commitments_spec().epoch_spec() < ROOM
    }

    /// Whether the counters of the level leave room for one more tick.
    pub fn room_left(&self) -> (r: bool)
        ensures
            r == self.has_room(),
    {
        self.world.next_id() < ROOM && self.world.next_light_id() < ROOM
            && (self.world.entities().len() as u64) < ROOM
            && (self.pathfinding.committed_actions().len() as u64) < ROOM
            && self.visible_area.epoch() < u64::MAX
            && self.pathfinding.commitment_grid().epoch() < ROOM
    }

    pub fn draw_countdown(&self) -> (r: &DrawCountdown)
        ensures
            *r == self.draw_countdown_spec(),
    {
        &self.draw_countdown
    }

    pub fn hand(&self) -> (r: &Vec<Option<Card>>)
        ensures
            r@ == self.hand_spec(),
    {
        &self.hand
    }

    pub fn deck(&self) -> (r: &Vec<Card>)
        ensures
            r@ == self.deck_spec(),
    {
        &self.deck
    }

    pub fn spent(&self) -> (r: &Vec<Card>)
        ensures
            r@ == self.spent_spec(),
    {
        &self.spent
    }

    pub fn waste(&self) -> (r: &Vec<Card>)
        ensures
            r@ == self.waste_spec(),
    {
        &self.waste
    }

    pub fn burnt(&self) -> (r: &Vec<Card>)
        ensures
            r@ == self.burnt_spec(),
    {
        &self.burnt
    }

    pub fn world(&self) -> (r: &World)
        ensures
            *r == self.world_spec(),
    {
        &self.world
    }

    pub fn visible_area(&self) -> (r: &VisibileArea)
        ensures
            *r == self.visible_area_spec(),
    {
        &self.visible_area
    }

    pub fn pathfinding(&self) -> (r: &PathfindingContext)
        ensures
            *r == self.pathfinding_spec(),
    {
        &self.pathfinding
    }

    pub fn player_id(&self) -> (r: EntityId)
        ensures
            r == self.player_id_spec(),
    {
        self.player_id
    }

    pub fn turn(&self) -> (r: Turn)
        ensures
            r == self.turn_spec(),
    {
        self.turn
    }

    /// The player.
    pub fn player(&self) -> (r: Entity)
        requires
            self.wf(),
        ensures
            r == self.player_spec(),
    {
        self.world.entity(self.player_id).unwrap()
    }

    /// What the renderer reads.
    pub fn to_render(&self) -> (r: ToRender)
        requires
            self.wf(),
        ensures
            *r.world == self.world_spec(),
            *r.visible_area == self.visible_area_spec(),
            r.player == self.player_spec(),
            *r.commitment_grid == self.pathfinding_spec().commitments_spec(),
    {
        ToRender {
            world: &self.world,
            visible_area: &self.visible_area,
            player: self.player(),
            commitment_grid: self.pathfinding.commitment_grid(),
        }
    }

    /// The upgrades an altar may offer: a larger hand only as long as the
    /// hand has fewer than [`MAX_NUM_CARDS`] slots.
    pub open spec fn upgrade_choices_spec(&self) -> Seq<CharacterUpgrade> {
        if self.hand_spec().len() >= MAX_NUM_CARDS {
            seq![CharacterUpgrade::Life, CharacterUpgrade::Power, CharacterUpgrade::Vision]
        } else {
            seq![
                CharacterUpgrade::Life,
                CharacterUpgrade::Power,
                CharacterUpgrade::Hand,
                CharacterUpgrade::Vision,
            ]
        }
    }

    /// The upgrades an altar may offer.
    pub fn upgrade_choices(&self) -> (r: Vec<CharacterUpgrade>)
        ensures
            r@ == self.upgrade_choices_spec(),
    {
        let mut r: Vec<CharacterUpgrade> = Vec::new();
        r.push(CharacterUpgrade::Life);
        r.push(CharacterUpgrade::Power);
        if self.hand.len() < MAX_NUM_CARDS {
            r.push(CharacterUpgrade::Hand);
        }
        r.push(CharacterUpgrade::Vision);
        assert(r@ =~= self.upgrade_choices_spec());
        r
    }

    /// Picks `amount` of the upgrades an altar may offer, or all of them
    /// where there are fewer; which of them, and in what order, is the
    /// generator's choice.
    pub fn choose_upgrades(&self, amount: usize, rng: &mut rand_isaac::IsaacRng) -> (r: Vec<
        CharacterUpgrade,
    >)
        ensures
            chosen_from(r@, self.upgrade_choices_spec(), amount),
    {
        let choices = self.upgrade_choices();
        choose_multiple(&choices, amount, rng)
    }

    /// Picks `amount` of the cards an altar offers to take, or all of them
    /// where there are fewer; which of them, and in what order, is the
    /// generator's choice.
    pub fn choose_negative_cards(&self, amount: usize, rng: &mut rand_isaac::IsaacRng) -> (r: Vec<
        Card,
    >)
        ensures
            chosen_from(r@, negative_cards_spec(), amount),
    {
        let cards = negative_cards();
        choose_multiple(&cards, amount, rng)
    }

    /// Picks `amount` of the cards a fountain offers, or all of them where
    /// there are fewer; which of them, and in what order, is the
    /// generator's choice.
    pub fn choose_positive_cards(&self, amount: usize, rng: &mut rand_isaac::IsaacRng) -> (r: Vec<
        Card,
    >)
        ensures
            chosen_from(r@, positive_cards_spec(), amount),
    {
        let cards = positive_cards();
        choose_multiple(&cards, amount, rng)
    }

    /// Draws a hand: see [`hand_drawn`].
    pub fn draw_hand(&mut self)
        ensures
            hand_dealt(old(self), final(self)),
    {
        let mut i: usize = 0;
        while i < self.hand.len()
            invariant
                i <= self.hand@.len(),
                self.hand@.len() == old(self).hand@.len(),
                self.same_but_cards(old(self)),
                self.spent@ == old(self).spent@,
                self.burnt@ == old(self).burnt@,
                self.draw_countdown == old(self).draw_countdown,
                self.hand@.skip(i as int) == old(self).hand@.skip(i as int),
                (self.hand@.take(i as int), self.deck@, self.waste@) == hand_drawn(
                    old(self).hand@.take(i as int),
                    old(self).deck@,
                    old(self).waste@,
                ),
            decreases self.hand@.len() - i,
        {
            proof {
                assert(old(self).hand@.take(i + 1).drop_last() == old(self).hand@.take(i as int));
                assert(old(self).hand@.take(i + 1).last() == old(self).hand@[i as int]);
                assert(self.hand@[i as int] == self.hand@.skip(i as int)[0]);
                assert(old(self).hand@[i as int] == old(self).hand@.skip(i as int)[0]);
            }
            let ghost before = self.hand@;
            match self.hand[i] {
                Some(card) => {
                    self.waste.push(card);
                },
                None => {},
            }
            let drawn = self.deck.pop();
            self.hand[i] = drawn;
            proof {
                assert(self.hand@.take(i + 1) =~= before.take(i as int).push(drawn));
                assert(self.hand@.skip(i + 1) =~= before.skip(i + 1));
                assert(before.skip(i + 1) =~= before.skip(i as int).skip(1));
                assert(old(self).hand@.skip(i + 1) =~= old(self).hand@.skip(i as int).skip(1));
            }
            i += 1;
        }
        proof {
            assert(self.hand@.take(i as int) == self.hand@);
            assert(old(self).hand@.take(i as int) == old(self).hand@);
        }
    }

    /// Whether this level is `before` in all but its cards.
    pub open spec fn same_but_cards(&self, before: &Gws) -> bool {
        &&& self.world_spec() == before.world_spec()
        &&& self.visible_area_spec() == before.visible_area_spec()
        &&& self.pathfinding_spec() == before.pathfinding_spec()
        &&& self.player_id_spec() == before.player_id_spec()
        &&& self.animation_spec() == before.animation_spec()
        &&& self.turn_spec() == before.turn_spec()
    }

    /// What [`Gws::blink`] comes to: the player teleports only to a cell
    /// that is in sight and lit this tick, and then under the rules of
    /// [`World::blink_outcome`].
    pub open spec fn blink_outcome(&self, coord: Coordinate) -> Result<ApplyAction, CancelAction> {
        let state = crate::vision::VisibilityState {
            count: self.visible_area_spec().epoch_spec(),
        };
        if self.visible_area_spec().is_visible_spec(coord, state)
            && self.visible_area_spec().light_colour_spec(coord, state) != Rgb24::black_spec() {
            self.world_spec().blink_outcome(self.player_id_spec(), coord)
        } else {
            Err(CancelAction::DestinationNotVisible)
        }
    }

    /// Teleports the player to `coord`, if the destination is legal.
    pub fn blink(&mut self, coord: Coordinate) -> (r: Result<ApplyAction, CancelAction>)
        requires
            old(self).wf(),
        ensures
            players_kept(
                old(self).world_spec().entities_spec(),
                final(self).world_spec().entities_spec(),
            ),
            final(self).world_spec().size_spec() == old(self).world_spec().size_spec(),
            final(self).wf(),
            r == old(self).blink_outcome(coord),
            final(self).same_but_world(old(self)),
            r.is_ok() ==> final(self).world_spec().moved(
                &old(self).world_spec(),
                old(self).player_id_spec(),
                coord,
            ),
            r.is_err() ==> final(self).world_spec() == old(self).world_spec(),
    {
        let state = self.visible_area.state();
        if self.visible_area.is_visible(coord, state) && !self.visible_area.light_colour(
            coord,
            state,
        ).is_black() {
            let r = self.world.blink_entity_to_coord(self.player_id, coord);
            proof {
                self.lemma_player_kept(old(self));
            }
            r
        } else {
            Err(CancelAction::DestinationNotVisible)
        }
    }

    /// Whether this level is `before` in all but its world.
    pub open spec fn same_but_world(&self, before: &Gws) -> bool {
        &&& self.visible_area_spec() == before.visible_area_spec()
        &&& self.pathfinding_spec() == before.pathfinding_spec()
        &&& self.player_id_spec() == before.player_id_spec()
        &&& self.animation_spec() == before.animation_spec()
        &&& self.turn_spec() == before.turn_spec()
        &&& self.hand_spec() == before.hand_spec()
        &&& self.deck_spec() == before.deck_spec()
        &&& self.spent_spec() == before.spent_spec()
        &&& self.waste_spec() == before.waste_spec()
        &&& self.burnt_spec() == before.burnt_spec()
        &&& self.draw_countdown_spec() == before.draw_countdown_spec()
    }

    /// The player is still there, a player and with hit points, after a
    /// move or a teleport of the player.
    proof fn lemma_player_kept(&self, before: &Gws)
        requires
            before.wf(),
            self.world_spec().wf(),
            self.player_id_spec() == before.player_id_spec(),
            self.world_spec() == before.world_spec() || exists|coord: Coordinate|
                self.world_spec().moved(&before.world_spec(), before.player_id_spec(), coord),
        ensures
            self.world_spec().entity_spec(self.player_id_spec()).is_some(),
            self.player_spec().player,
            self.player_spec().hit_points.is_some(),
            self.world_spec().size_spec() == before.world_spec().size_spec(),
    {
        if self.world_spec() != before.world_spec() {
            let coord = choose|coord: Coordinate|
                self.world_spec().moved(&before.world_spec(), before.player_id_spec(), coord);
            let entities = before.world_spec().entities_spec();
            let id = before.player_id_spec();
            crate::world::tables::lemma_found_entity(entities, id);
            let index = crate::entity::index_of_id(entities, id);
            crate::world::tables::lemma_entities_update(
                entities,
                index,
                Entity { coord, ..entities[index] },
            );
        }
    }

    /// Lets the player strike in `direction`.
    pub fn bump(&self, direction: CardinalDirection) -> (r: Result<ApplyAction, CancelAction>)
        requires
            self.wf(),
        ensures
            r == self.world_spec().bump_outcome(self.player_id_spec(), direction),
    {
        self.world.bump_npc_in_direction(self.player_id, direction)
    }

    /// Gives the player back `by` hit points.
    pub fn heal(&mut self, by: u32) -> (r: Result<ApplyAction, CancelAction>)
        requires
            old(self).wf(),
        ensures
            players_kept(
                old(self).world_spec().entities_spec(),
                final(self).world_spec().entities_spec(),
            ),
            final(self).world_spec().size_spec() == old(self).world_spec().size_spec(),
            final(self).wf(),
            final(self).same_but_world(old(self)),
            match World::healed(old(self).player_spec(), by) {
                Ok(healed) => r == Ok::<ApplyAction, CancelAction>(ApplyAction::Done)
                    && final(self).world_spec().retouched(
                    &old(self).world_spec(),
                    old(self).player_id_spec(),
                    healed,
                ),
                Err(cancel) => r == Err::<ApplyAction, CancelAction>(cancel)
                    && final(self).world_spec() == old(self).world_spec(),
            },
    {
        self.world.heal(self.player_id, by)
    }

    /// Lets the player loose a spark in `direction`.
    pub fn spark(&mut self, direction: CardinalDirection) -> (r: Result<ApplyAction, CancelAction>)
        requires
            old(self).wf(),
            old(self).world_spec().next_id_spec() < u64::MAX,
            old(self).world_spec().next_light_id_spec() < u64::MAX,
        ensures
            players_kept(
                old(self).world_spec().entities_spec(),
                final(self).world_spec().entities_spec(),
            ),
            final(self).world_spec().size_spec() == old(self).world_spec().size_spec(),
            final(self).wf(),
            final(self).same_but_world(old(self)),
            match old(self).player_spec().coord.step_spec(direction) {
                None => r == Err::<ApplyAction, CancelAction>(CancelAction::OutOfBounds)
                    && final(self).world_spec() == old(self).world_spec(),
                Some(to) => r == Ok::<ApplyAction, CancelAction>(
                    ApplyAction::Animation(
                        Animation::spark_spec(old(self).world_spec().next_id_spec(), direction),
                    ),
                ) && final(self).world_spec().added(
                    &old(self).world_spec(),
                    to,
                    PackedEntity::spark_spec(),
                ),
            },
    {
        self.world.spark_in_direction(self.player_id, direction)
    }

    /// Recomputes what the player sees from where the player stands.
    pub fn update_visible_area(&mut self)
        requires
            old(self).wf(),
            old(self).visible_area_spec().epoch_spec() < u64::MAX,
        ensures
            final(self).wf(),
            looked_around(old(self), final(self)),
    {
        let coord = self.player().coord;
        self.visible_area.update(coord, &self.world);
    }

    /// Whether this level is `before` in all but what the player sees.
    pub open spec fn same_but_sight(&self, before: &Gws) -> bool {
        &&& self.world_spec() == before.world_spec()
        &&& self.pathfinding_spec() == before.pathfinding_spec()
        &&& self.player_id_spec() == before.player_id_spec()
        &&& self.animation_spec() == before.animation_spec()
        &&& self.turn_spec() == before.turn_spec()
        &&& self.hand_spec() == before.hand_spec()
        &&& self.deck_spec() == before.deck_spec()
        &&& self.spent_spec() == before.spent_spec()
        &&& self.waste_spec() == before.waste_spec()
        &&& self.burnt_spec() == before.burnt_spec()
        &&& self.draw_countdown_spec() == before.draw_countdown_spec()
    }

    /// Whether the player stands on stairs.
    pub open spec fn on_stairs(&self) -> bool {
        let coord = self.player_spec().coord;
        let world = self.world_spec();
        world.size_spec().contains_spec(coord) && exists|k: int|
            0 <= k < world.cell_spec(coord).occupants_spec().len() && shows(
                world.entity_spec((#[trigger] world.cell_spec(coord).occupants_spec()[k]).id),
                ForegroundTile::Stairs,
            )
    }

    /// What the player carries to the next level: the player as the world
    /// has it, all the cards that are not burnt as the new deck, and the
    /// burnt ones.
    pub fn between_levels(&self) -> (r: BetweenLevels)
        requires
            self.wf(),
        ensures
            r.wf(),
            r.player == self.world_spec().packed_spec(self.player_id_spec()),
            r.deck@ == self.deck_spec() + self.spent_spec() + self.waste_spec()
                + cards_in_hand(self.hand_spec()),
            r.burnt@ == self.burnt_spec(),
            r.hand_size == self.hand_spec().len(),
            r.max_draw_countdown == self.draw_countdown_spec().max,
    {
        let mut deck: Vec<Card> = Vec::new();
        append_cards(&mut deck, &self.deck);
        append_cards(&mut deck, &self.spent);
        append_cards(&mut deck, &self.waste);
        let ghost before = deck@;
        let mut i: usize = 0;
        while i < self.hand.len()
            invariant
                i <= self.hand@.len(),
                deck@ == before + cards_in_hand(self.hand@.take(i as int)),
            decreases self.hand@.len() - i,
        {
            proof {
                assert(self.hand@.take(i + 1).drop_last() == self.hand@.take(i as int));
                assert(self.hand@.take(i + 1).last() == self.hand@[i as int]);
            }
            match self.hand[i] {
                Some(card) => {
                    deck.push(card);
                    assert(deck@ =~= before + cards_in_hand(self.hand@.take(i + 1)));
                },
                None => {},
            }
            i += 1;
        }
        proof {
            assert(self.hand@.take(i as int) == self.hand@);
        }
        let mut burnt: Vec<Card> = Vec::new();
        append_cards(&mut burnt, &self.burnt);
        assert(burnt@ =~= self.burnt@);
        BetweenLevels {
            deck,
            burnt,
            player: self.world.pack_entity(self.player_id),
            hand_size: self.hand.len(),
            max_draw_countdown: self.draw_countdown.max,
        }
    }

    /// How the level has ended, if it has: the player has reached the
    /// stairs, or has no hit points left.
    pub fn check_end(&self) -> (r: Option<End>)
        requires
            self.wf(),
        ensures
            level_end(self, r),
    {
        let player = self.player();
        match self.world.cell(player.coord) {
            Some(cell) => {
                let occupants = cell.occupants();
                let mut k: usize = 0;
                while k < occupants.len()
                    invariant
                        k <= occupants@.len(),
                        self.wf(),
                        player == self.player_spec(),
                        self.world_spec().size_spec().contains_spec(player.coord),
                        occupants@ == self.world_spec().cell_spec(player.coord).occupants_spec(),
                        forall|j: int|
                            0 <= j < k ==> !shows(
                                self.world_spec().entity_spec((#[trigger] occupants@[j]).id),
                                ForegroundTile::Stairs,
                            ),
                    decreases occupants@.len() - k,
                {
                    let on_stairs = match self.world.entity(occupants[k].id) {
                        Some(entity) => match entity.foreground_tile {
                            Some(ForegroundTile::Stairs) => true,
                            _ => false,
                        },
                        None => false,
                    };
                    if on_stairs {
                        proof {
                            let world = self.world_spec();
                            assert(shows(
                                world.entity_spec(
                                    world.cell_spec(player.coord).occupants_spec()[k as int].id,
                                ),
                                ForegroundTile::Stairs,
                            ));
                        }
                        return Some(End::ExitLevel(self.between_levels()));
                    }
                    k += 1;
                }
            },
            None => {},
        }
        if player.hit_points.unwrap().current == 0 {
            return Some(End::PlayerDied);
        }
        None
    }

    /// Lets `period` nanoseconds pass for the animation that was started
    /// last. When no animation is left to wait for and it is the engine's
    /// turn, the actors plan, and the turn goes to the player.
    pub fn animate(&mut self, period: u64)
        requires
            old(self).wf(),
            old(self).world_spec().next_id_spec() < u64::MAX,
            old(self).world_spec().next_light_id_spec() < u64::MAX,
            old(self).pathfinding_spec().commitments_spec().epoch_spec() < u64::MAX,
        ensures
            final(self).wf(),
            animated(old(self), final(self), period),
            final(self).same_but_world_and_plans_and_turn(old(self)),
            players_kept(
                old(self).world_spec().entities_spec(),
                final(self).world_spec().entities_spec(),
            ),
            final(self).world_spec().size_spec() == old(self).world_spec().size_spec(),
            final(self).world_spec().next_id_spec() <= old(self).world_spec().next_id_spec() + 1,
            final(self).world_spec().next_light_id_spec()
                <= old(self).world_spec().next_light_id_spec() + 1,
            final(self).world_spec().entities_spec().len()
                <= old(self).world_spec().entities_spec().len() + 1,
            final(self).animation_spec().len() <= old(self).animation_spec().len(),
            final(self).turn_spec() == if final(self).animation_spec().len() == 0 {
                Turn::Player
            } else {
                old(self).turn_spec()
            },
            final(self).pathfinding_spec().committed_actions_spec().len()
                <= if old(self).pathfinding_spec().committed_actions_spec().len()
                >= final(self).world_spec().entities_spec().len() {
                old(self).pathfinding_spec().committed_actions_spec().len()
            } else {
                final(self).world_spec().entities_spec().len()
            },
            final(self).pathfinding_spec().commitments_spec().epoch_spec()
                <= old(self).pathfinding_spec().commitments_spec().epoch_spec() + 1,
    {
        match self.animation.pop() {
            Some(animation) => {
                match animation.tick(period, &mut self.world) {
                    Some(animation) => {
                        self.animation.push(animation);
                    },
                    None => {},
                }
            },
            None => {},
        }
        proof {
            self.lemma_players(old(self));
        }
        let ghost mid = *self;
        proof {
            assert(waited(old(self), &mid, period));
        }
        let engine = match self.turn {
            Turn::Engine => true,
            Turn::Player => false,
        };
        if self.animation.len() == 0 && engine {
            self.engine_commit();
        }
    }

    /// Whether this level is `before` in what the player sees, who the
    /// player is and the cards.
    pub open spec fn same_but_world_and_plans_and_turn(&self, before: &Gws) -> bool {
        &&& self.visible_area_spec() == before.visible_area_spec()
        &&& self.player_id_spec() == before.player_id_spec()
        &&& self.hand_spec() == before.hand_spec()
        &&& self.deck_spec() == before.deck_spec()
        &&& self.spent_spec() == before.spent_spec()
        &&& self.waste_spec() == before.waste_spec()
        &&& self.burnt_spec() == before.burnt_spec()
        &&& self.draw_countdown_spec() == before.draw_countdown_spec()
    }

    /// Lets one tick of `period` nanoseconds pass.
    ///
    /// The waiting animation moves on. When none is left, the player's
    /// turn is taken with `input`, if there is one, and then the engine's:
    /// the actors carry out what they committed to when the last turn of
    /// the player ended. When no animation is left after that either, the
    /// actors plan again, against the distances from where the player
    /// stands now. Last of all, what the player sees is recomputed.
    ///
    /// Returns why the player's turn was called off or what the player
    /// walked into, without going further, or how the level has ended.
    pub fn tick(&mut self, input: Option<Input>, period: u64, rng: &mut rand_isaac::IsaacRng) -> (r:
        Option<Tick>)
        requires
            old(self).wf(),
            old(self).has_room(),
            match input {
                Some(input) => old(self).input_fits(input),
                None => true,
            },
        ensures
            final(self).wf(),
            ticked(old(self), final(self), input, period, r),
            final(self).player_id_spec() == old(self).player_id_spec(),
            players_kept(
                old(self).world_spec().entities_spec(),
                final(self).world_spec().entities_spec(),
            ),
            final(self).world_spec().size_spec() == old(self).world_spec().size_spec(),
    {
        self.animate(period);
        let ghost moved_on = *self;
        let players_turn = match self.turn {
            Turn::Player => true,
            Turn::Engine => false,
        };
        let ghost mid = self.world_spec().entities_spec();
        if self.animation.len() == 0 && players_turn {
            match input {
                Some(input) => {
                    let result = self.player_turn(input, rng);
                    let ghost played = *self;
                    proof {
                        crate::world::tables::lemma_players_kept_twice(
                            old(self).world_spec().entities_spec(),
                            mid,
                            self.world_spec().entities_spec(),
                        );
                    }
                    match result {
                        Err(cancel) => {
                            return Some(Tick::CancelAction(cancel));
                        },
                        Ok(ApplyAction::Done) => {
                            self.turn = Turn::Engine;
                            proof {
                                assert(handed_over(&played, self, None));
                            }
                        },
                        Ok(ApplyAction::Interact(entity_id)) => {
                            let typ = match self.world.entity(entity_id) {
                                Some(entity) => match entity.foreground_tile {
                                    Some(ForegroundTile::Flame) => Some(InteractiveType::Flame),
                                    Some(ForegroundTile::Altar) => Some(InteractiveType::Altar),
                                    Some(ForegroundTile::Fountain) => Some(
                                        InteractiveType::Fountain,
                                    ),
                                    _ => None,
                                },
                                None => None,
                            };
                            match typ {
                                Some(typ) => {
                                    return Some(Tick::Interact(Interactive { typ, entity_id }));
                                },
                                None => {},
                            }
                        },
                        Ok(ApplyAction::Animation(animation)) => {
                            self.turn = Turn::Engine;
                            self.animation.push(animation);
                            proof {
                                assert(handed_over(&played, self, Some(animation)));
                            }
                        },
                    }
                },
                None => {},
            }
        }
        let ghost ready = *self;
        let engines_turn = match self.turn {
            Turn::Engine => true,
            Turn::Player => false,
        };
        let ghost mid2 = self.world_spec().entities_spec();
        proof {
            crate::world::tables::lemma_players_kept_twice(
                old(self).world_spec().entities_spec(),
                mid,
                mid2,
            );
        }
        if self.animation.len() == 0 && engines_turn {
            self.engine_turn();
            proof {
                crate::world::tables::lemma_players_kept_twice(
                    old(self).world_spec().entities_spec(),
                    mid2,
                    self.world_spec().entities_spec(),
                );
            }
        }
        let ghost acted = *self;
        let ghost mid3 = self.world_spec().entities_spec();
        self.animate(0);
        let ghost settled = *self;
        proof {
            crate::world::tables::lemma_players_kept_twice(
                old(self).world_spec().entities_spec(),
                mid3,
                self.world_spec().entities_spec(),
            );
        }
        self.update_visible_area();
        let r = match self.check_end() {
            Some(end) => Some(Tick::End(end)),
            None => None,
        };
        proof {
            assert(acted.wf() && settled.wf());
            assert(finished(&ready, self, r));
        }
        r
    }

    /// Builds the level that `terrain` describes and puts the player into
    /// it, with what the player carries from the level before, or with what
    /// a first level starts with. The deck is shuffled, the actors plan
    /// their first turn, the first hand is drawn and the player looks around.
    pub fn new(
        terrain: TerrainDescription,
        between_levels: Option<BetweenLevels>,
        rng: &mut rand_isaac::IsaacRng,
    ) -> (game: Gws)
        requires
            terrain.wf(),
            match between_levels {
                Some(carried) => carried.wf(),
                None => true,
            },
        ensures
            game.wf(),
            game.has_room(),
            level_started(&game, &terrain, between_levels),
            game.world_spec().size_spec() == terrain.size,
            game.player_spec().coord == terrain.player_coord,
            game.visible_area_spec().epoch_spec() == 2,
            game.hand_spec().len() == carried_hand_size(between_levels),
            game.deck_spec().to_multiset().add(cards_in_hand(game.hand_spec()).to_multiset())
                == carried_deck(between_levels).to_multiset(),
    {
        let carried = match between_levels {
            Some(carried) => carried,
            None => BetweenLevels::initial(),
        };
        let BetweenLevels { player, mut deck, burnt, hand_size, max_draw_countdown } = carried;
        shuffle(&mut deck, rng);
        let draw_countdown = DrawCountdown { max: max_draw_countdown, current: max_draw_countdown };
        let mut world = World::new(terrain.size);
        let ghost mut worlds: Seq<World> = seq![world];
        let mut i: usize = 0;
        while i < terrain.instructions.len()
            invariant
                i <= terrain.instructions@.len(),
                terrain.wf(),
                world.wf(),
                world.size_spec() == terrain.size,
                world.next_id_spec() <= i,
                world.next_light_id_spec() <= i,
                world.entities_spec().len() <= i,
                worlds.len() == i + 1,
                worlds[0].is_new(terrain.size),
                worlds[i as int] == world,
                forall|k: int|
                    0 <= k < i ==> instructed(
                        &worlds[k],
                        &worlds[k + 1],
                        #[trigger] terrain.instructions@[k],
                    ),
            decreases terrain.instructions@.len() - i,
        {
            world.interpret_instruction(terrain.instructions[i]);
            proof {
                let more = worlds.push(world);
                assert forall|k: int| 0 <= k < i + 1 implies instructed(
                    &more[k],
                    &more[k + 1],
                    #[trigger] terrain.instructions@[k],
                ) by {
                    if k < i {
                        assert(more[k] == worlds[k] && more[k + 1] == worlds[k + 1]);
                    }
                }
                worlds = more;
            }
            i += 1;
        }
        let mut hand: Vec<Option<Card>> = Vec::new();
        let mut slot: usize = 0;
        while slot < hand_size
            invariant
                slot <= hand_size,
                hand@.len() == slot,
                forall|k: int| 0 <= k < slot ==> (#[trigger] hand@[k]).is_none(),
            decreases hand_size - slot,
        {
            hand.push(None);
            slot += 1;
        }
        let ghost built = world.entities_spec();
        let player_id = world.add_entity(terrain.player_coord, player);
        proof {
            crate::world::tables::lemma_entities_push(built, world.entities_spec().last());
        }
        let visible_area = VisibileArea::new(terrain.size);
        let pathfinding = PathfindingContext::new(terrain.size);
        let mut game = Gws {
            world,
            visible_area,
            player_id,
            pathfinding,
            animation: Vec::new(),
            turn: Turn::Player,
            hand,
            draw_countdown,
            deck,
            spent: Vec::new(),
            waste: Vec::new(),
            burnt,
        };
        let ghost fresh = game;
        game.engine_commit();
        let ghost planned = game;
        game.draw_hand();
        let ghost drawn = game;
        proof {
            lemma_hand_drawn(planned.hand_spec(), planned.deck_spec(), Seq::empty());
            assert(fresh.hand_spec() =~= Seq::new(hand_size as nat, |k: int| None::<Card>));
            assert(crate::terrain::built(worlds, terrain.instructions@));
        }
        game.update_visible_area();
        proof {
            assert(fresh.wf() && planned.wf() && drawn.wf());
            assert(opened(&fresh, &worlds.last(), &terrain, between_levels));
        }
        game
    }

    /// Whether this level is `before` in all but the actors' plans and
    /// whose turn it is.
    pub open spec fn same_but_plans(&self, before: &Gws) -> bool {
        &&& self.world_spec() == before.world_spec()
        &&& self.visible_area_spec() == before.visible_area_spec()
        &&& self.player_id_spec() == before.player_id_spec()
        &&& self.animation_spec() == before.animation_spec()
        &&& self.hand_spec() == before.hand_spec()
        &&& self.deck_spec() == before.deck_spec()
        &&& self.spent_spec() == before.spent_spec()
        &&& self.waste_spec() == before.waste_spec()
        &&& self.burnt_spec() == before.burnt_spec()
        &&& self.draw_countdown_spec() == before.draw_countdown_spec()
    }

    /// Lets the actors plan their turn, once the player has moved: the
    /// distances to the player are recomputed, every claim is released, and
    /// each autonomous actor that perceives the player commits, in the order
    /// of the identities, to what [`npc_intent`] says.
    pub fn engine_commit(&mut self)
        requires
            old(self).wf(),
            old(self).pathfinding_spec().commitments_spec().epoch_spec() < u64::MAX,
        ensures
            final(self).wf(),
            final(self).same_but_plans(old(self)),
            final(self).turn_spec() == Turn::Player,
            final(self).pathfinding_spec().player_coord_spec() == old(self).player_spec().coord,
            final(self).pathfinding_spec().commitments_spec().epoch_spec()
                == old(self).pathfinding_spec().commitments_spec().epoch_spec() + 1,
            old(self).world_spec().size_spec().contains_spec(old(self).player_spec().coord)
                ==> is_distance_field(
                old(self).world_spec().size_spec(),
                old(self).world_spec().solid_view(),
                old(self).player_spec().coord,
                final(self).pathfinding_spec().distances_spec(),
            ),
            planned_turn(old(self), final(self)),
            final(self).pathfinding_spec().committed_actions_spec().len()
                <= old(self).world_spec().entities_spec().len(),
            forall|k: int|
                0 <= k < final(self).pathfinding_spec().committed_actions_spec().len() ==> intends(
                    &old(self).world_spec(),
                    old(self).player_spec().coord,
                    #[trigger] final(self).pathfinding_spec().committed_actions_spec()[k],
                ),
    {
        let player_coord = self.player().coord;
        self.pathfinding.update_player_coord(player_coord, &self.world);
        let ids = self.world.npc_ids();
        let ghost mut states: Seq<PathfindingContext> = seq![self.pathfinding_spec()];
        proof {
            lemma_npc_ids_len(self.world_spec().entities_spec());
        }
        let mut i: usize = 0;
        while i < ids.len()
            invariant
                i <= ids@.len(),
                ids@ == crate::world::tables::npc_ids_of(old(self).world_spec().entities_spec()),
                states.len() == i + 1,
                states[0].recomputed(
                    &old(self).pathfinding_spec(),
                    player_coord,
                    &old(self).world_spec(),
                ),
                states[i as int] == self.pathfinding_spec(),
                forall|k: int|
                    0 <= k < i ==> planned(
                        &states[k],
                        &states[k + 1],
                        #[trigger] ids@[k],
                        &old(self).world_spec(),
                        player_coord,
                    ),
                ids@.len() <= self.world_spec().entities_spec().len(),
                self.wf(),
                self.same_but_plans(old(self)),
                self.turn_spec() == old(self).turn_spec(),
                player_coord == old(self).player_spec().coord,
                self.pathfinding_spec().player_coord_spec() == player_coord,
                self.pathfinding_spec().commitments_spec().epoch_spec()
                    == old(self).pathfinding_spec().commitments_spec().epoch_spec() + 1,
                old(self).world_spec().size_spec().contains_spec(player_coord)
                    ==> is_distance_field(
                    old(self).world_spec().size_spec(),
                    old(self).world_spec().solid_view(),
                    player_coord,
                    self.pathfinding_spec().distances_spec(),
                ),
                self.pathfinding_spec().committed_actions_spec().len() <= i,
                forall|k: int|
                    0 <= k < self.pathfinding_spec().committed_actions_spec().len() ==> intends(
                        &old(self).world_spec(),
                        player_coord,
                        #[trigger] self.pathfinding_spec().committed_actions_spec()[k],
                    ),
            decreases ids@.len() - i,
        {
            let id = ids[i];
            match self.world.entity(id) {
                Some(npc) => {
                    match intent(&self.world, npc, player_coord) {
                        Some(typ) => {
                            let ghost before = self.pathfinding_spec().committed_actions_spec();
                            self.pathfinding.commit_action(id, &self.world, typ);
                            proof {
                                let after = self.pathfinding_spec().committed_actions_spec();
                                assert forall|k: int| 0 <= k < after.len() implies intends(
                                    &old(self).world_spec(),
                                    player_coord,
                                    #[trigger] after[k],
                                ) by {
                                    if k < before.len() {
                                        assert(after[k] == before[k]);
                                    }
                                }
                            }
                        },
                        None => {},
                    }
                },
                None => {},
            }
            proof {
                let more = states.push(self.pathfinding_spec());
                assert forall|k: int| 0 <= k < i + 1 implies planned(
                    &more[k],
                    &more[k + 1],
                    #[trigger] ids@[k],
                    &old(self).world_spec(),
                    player_coord,
                ) by {
                    if k < i {
                        assert(more[k] == states[k] && more[k + 1] == states[k + 1]);
                    }
                }
                states = more;
            }
            i += 1;
        }
        self.turn = Turn::Player;
        proof {
            assert(planned_in_turn(states, ids@, &old(self).world_spec(), player_coord));
        }
    }

    /// Lets the actors carry out what they committed to, in the order in
    /// which they did: a move is a step under the rules of
    /// [`World::step_outcome`], a cast looses a spark, and a healer counts
    /// down and then heals the wounded actors around it. Then every claim
    /// is released.
    pub fn engine_turn(&mut self)
        requires
            old(self).wf(),
            old(self).pathfinding_spec().commitments_spec().epoch_spec() < u64::MAX,
            old(self).world_spec().next_id_spec() + old(self).pathfinding_spec(
                ).committed_actions_spec().len() < u64::MAX,
            old(self).world_spec().next_light_id_spec() + old(self).pathfinding_spec(
                ).committed_actions_spec().len() < u64::MAX,
        ensures
            final(self).wf(),
            engine_turned(old(self), final(self)),
            final(self).same_but_world_and_plans(old(self)),
            players_kept(old(self).world_spec().entities_spec(),
                final(self).world_spec().entities_spec()),
            final(self).world_spec().size_spec() == old(self).world_spec().size_spec(),
            final(self).world_spec().next_id_spec()
                <= old(self).world_spec().next_id_spec() + old(self).pathfinding_spec(
                    ).committed_actions_spec().len(),
            final(self).world_spec().next_light_id_spec()
                <= old(self).world_spec().next_light_id_spec() + old(self).pathfinding_spec(
                    ).committed_actions_spec().len(),
            final(self).world_spec().entities_spec().len()
                <= old(self).world_spec().entities_spec().len() + old(self).pathfinding_spec(
                    ).committed_actions_spec().len(),
            final(self).pathfinding_spec().committed_actions_spec()
                == old(self).pathfinding_spec().committed_actions_spec(),
            final(self).pathfinding_spec().distances_spec()
                == old(self).pathfinding_spec().distances_spec(),
            final(self).pathfinding_spec().player_coord_spec()
                == old(self).pathfinding_spec().player_coord_spec(),
            final(self).pathfinding_spec().commitments_spec().epoch_spec()
                == old(self).pathfinding_spec().commitments_spec().epoch_spec() + 1,
            forall|c: Coordinate|
                !final(self).pathfinding_spec().commitments_spec().is_committed_spec(c),
            exists|worlds: Seq<World>, results: Seq<Option<Animation>>|
                {
                    &&& #[trigger] acted_in_turn(
                        worlds,
                        results,
                        old(self).pathfinding_spec().committed_actions_spec(),
                    )
                    &&& worlds.first() == old(self).world_spec()
                    &&& worlds.last() == final(self).world_spec()
                    &&& final(self).animation_spec() == old(self).animation_spec() + started(
                        results,
                    )
                },
            old(self).animation_spec().is_prefix_of(final(self).animation_spec()),
            final(self).animation_spec().len()
                <= old(self).animation_spec().len() + old(self).pathfinding_spec(
                    ).committed_actions_spec().len(),
    {
        let ghost actions = self.pathfinding_spec().committed_actions_spec();
        let ghost start = self.world_spec();
        let ghost mut worlds: Seq<World> = seq![start];
        let ghost mut results: Seq<Option<Animation>> = Seq::empty();
        let n = self.pathfinding.committed_actions().len();
        let mut i: usize = 0;
        proof {
            assert(old(self).animation_spec() + started(results) =~= old(self).animation_spec());
        }
        while i < n
            invariant
                i <= n,
                n == actions.len(),
                worlds.len() == i + 1,
                results.len() == i,
                worlds[0] == start,
                worlds[i as int] == self.world_spec(),
                forall|k: int|
                    0 <= k < i ==> acted(
                        &worlds[k],
                        &worlds[k + 1],
                        #[trigger] actions[k],
                        results[k],
                    ),
                self.animation_spec() == old(self).animation_spec() + started(results),
                self.world_spec().wf(),
                self.pathfinding_spec() == old(self).pathfinding_spec(),
                self.pathfinding_spec().committed_actions_spec() == actions,
                self.same_but_world_and_plans(old(self)),
                players_kept(start.entities_spec(), self.world_spec().entities_spec()),
                self.world_spec().size_spec() == start.size_spec(),
                start == old(self).world_spec(),
                self.world_spec().next_id_spec() <= start.next_id_spec() + i,
                self.world_spec().next_light_id_spec() <= start.next_light_id_spec() + i,
                self.world_spec().entities_spec().len() <= start.entities_spec().len() + i,
                start.next_id_spec() + n < u64::MAX,
                start.next_light_id_spec() + n < u64::MAX,
                old(self).animation_spec().is_prefix_of(self.animation_spec()),
                self.animation_spec().len() <= old(self).animation_spec().len() + i,
            decreases n - i,
        {
            let (id, direction, typ) = self.pathfinding.committed_actions()[i];
            let ghost before = self.world_spec();
            let ghost shown = self.animation_spec();
            let result = self.act(id, direction, typ);
            proof {
                crate::world::tables::lemma_players_kept_twice(
                    start.entities_spec(),
                    before.entities_spec(),
                    self.world_spec().entities_spec(),
                );
            }
            match result {
                Some(animation) => {
                    self.animation.push(animation);
                    assert(shown.is_prefix_of(self.animation_spec()));
                },
                None => {},
            }
            proof {
                let more = worlds.push(self.world_spec());
                let told = results.push(result);
                assert(told.drop_last() =~= results);
                assert(self.animation_spec() =~= old(self).animation_spec() + started(told));
                assert forall|k: int| 0 <= k < i + 1 implies acted(
                    &more[k],
                    &more[k + 1],
                    #[trigger] actions[k],
                    told[k],
                ) by {
                    if k < i {
                        assert(more[k] == worlds[k] && more[k + 1] == worlds[k + 1]);
                        assert(told[k] == results[k]);
                    }
                }
                worlds = more;
                results = told;
            }
            i += 1;
        }
        proof {
            self.lemma_players(old(self));
            assert(acted_in_turn(worlds, results, actions));
        }
        self.pathfinding.clear_commitments();
    }

    /// Whether this level is `before` in all but its world, the actors'
    /// plans and the animations that wait.
    pub open spec fn same_but_world_and_plans(&self, before: &Gws) -> bool {
        &&& self.visible_area_spec() == before.visible_area_spec()
        &&& self.player_id_spec() == before.player_id_spec()
        &&& self.turn_spec() == before.turn_spec()
        &&& self.hand_spec() == before.hand_spec()
        &&& self.deck_spec() == before.deck_spec()
        &&& self.spent_spec() == before.spent_spec()
        &&& self.waste_spec() == before.waste_spec()
        &&& self.burnt_spec() == before.burnt_spec()
        &&& self.draw_countdown_spec() == before.draw_countdown_spec()
    }

    /// The player is kept where the players of the world are.
    proof fn lemma_players(&self, before: &Gws)
        requires
            before.wf(),
            self.player_id_spec() == before.player_id_spec(),
            players_kept(before.world_spec().entities_spec(), self.world_spec().entities_spec()),
        ensures
            self.world_spec().entity_spec(self.player_id_spec()).is_some(),
            self.player_spec().player,
            self.player_spec().hit_points.is_some(),
    {
        let b = crate::entity::find_entity_spec(
            before.world_spec().entities_spec(),
            before.player_id_spec(),
        );
        assert(b.is_some() && b.unwrap().player);
    }

    /// Carries out one committed action of the actor `id`, and returns the
    /// animation that it starts, if it starts one. An actor that has left
    /// the world does nothing.
    fn act(&mut self, id: EntityId, direction: CardinalDirection, typ: CommitmentType) -> (r:
        Option<Animation>)
        requires
            old(self).world_spec().wf(),
            old(self).world_spec().next_id_spec() < u64::MAX,
            old(self).world_spec().next_light_id_spec() < u64::MAX,
        ensures
            final(self).world_spec().wf(),
            final(self).same_but_world(old(self)),
            acted(&old(self).world_spec(), &final(self).world_spec(), (id, direction, typ), r),
            players_kept(
                old(self).world_spec().entities_spec(),
                final(self).world_spec().entities_spec(),
            ),
            final(self).world_spec().size_spec() == old(self).world_spec().size_spec(),
            final(self).world_spec().next_id_spec() <= old(self).world_spec().next_id_spec() + 1,
            final(self).world_spec().next_light_id_spec()
                <= old(self).world_spec().next_light_id_spec()
                + 1,
            final(self).world_spec().entities_spec().len()
                <= old(self).world_spec().entities_spec().len()
                + 1,
    {
        let entity = match self.world.entity(id) {
            Some(entity) => entity,
            None => {
                return None;
            },
        };
        let result = match typ {
            CommitmentType::Move => self.world.move_entity_in_direction_with_attack_policy(
                id,
                direction,
            ),
            CommitmentType::Cast => self.world.spark_in_direction(id, direction),
            CommitmentType::Heal(count) => {
                if count == 0 {
                    self.heal_around(entity.coord);
                    let ghost start = self.world_spec();
                    if self.world.entity(id).is_some() {
                        let _ = self.world.set_heal_countdown(id, None);
                    }
                    proof {
                        crate::world::tables::lemma_players_kept_twice(
                            old(self).world_spec().entities_spec(),
                            start.entities_spec(),
                            self.world_spec().entities_spec(),
                        );
                    }
                    let ghost lit = self.world_spec();
                    proof {
                        assert(start.wf() && lit.wf());
                        assert(lit.heal_countdown_set(&start, id, None));
                    }
                    let glow = self.world.add_entity(
                        entity.coord,
                        PackedEntity::glow(Rgb24::new(255, 255, 0)),
                    );
                    proof {
                        crate::world::tables::lemma_players_kept_twice(
                            old(self).world_spec().entities_spec(),
                            lit.entities_spec(),
                            self.world_spec().entities_spec(),
                        );
                    }
                    Ok(ApplyAction::Animation(Animation::glow_fade_out(glow, 10)))
                } else {
                    self.world.set_heal_countdown(id, Some(count))
                }
            },
        };
        match result {
            Ok(ApplyAction::Animation(animation)) => Some(animation),
            _ => None,
        }
    }

    /// Gives one hit point back to each wounded autonomous actor fewer
    /// than [`HEAL_RANGE`] steps from `coord`.
    fn heal_around(&mut self, coord: Coordinate)
        requires
            old(self).world_spec().wf(),
        ensures
            final(self).world_spec().wf(),
            final(self).same_but_world(old(self)),
            healed_all(&old(self).world_spec(), &final(self).world_spec(), coord),
            players_kept(
                old(self).world_spec().entities_spec(),
                final(self).world_spec().entities_spec(),
            ),
    {
        let ghost start = self.world_spec().entities_spec();
        let n = self.world.entities().len();
        let mut j: usize = 0;
        while j < n
            invariant
                j <= n,
                n == start.len(),
                start == old(self).world_spec().entities_spec(),
                self.world_spec().wf(),
                self.same_but_world(old(self)),
                players_kept(start, self.world_spec().entities_spec()),
                self.world_spec().size_spec() == old(self).world_spec().size_spec(),
                self.world_spec().next_id_spec() == old(self).world_spec().next_id_spec(),
                self.world_spec().next_light_id_spec()
                    == old(self).world_spec().next_light_id_spec(),
                self.world_spec().lights_spec() == old(self).world_spec().lights_spec(),
                self.world_spec().cells_spec() == old(self).world_spec().cells_spec(),
                self.world_spec().entities_spec().len() == n,
                forall|k: int|
                    0 <= k < j ==> #[trigger] self.world_spec().entities_spec()[k]
                        == healed_around(start[k], coord),
                forall|k: int|
                    j <= k < n ==> #[trigger] self.world_spec().entities_spec()[k] == start[k],
            decreases n - j,
        {
            let e = self.world.entities()[j];
            let ghost before = self.world_spec().entities_spec();
            proof {
                crate::world::tables::lemma_find_entity(before, j as int);
            }
            if e.npc && coord.manhattan_distance(e.coord) < HEAL_RANGE as u64 && is_wounded(&e) {
                let _ = self.world.heal(e.id, 1);
                proof {
                    crate::world::tables::lemma_players_kept_twice(
                        start,
                        before,
                        self.world_spec().entities_spec(),
                    );
                }
            }
            j += 1;
        }
    }

    /// What the player can do with `slot` and `param`: the card that is
    /// played, or why none is.
    pub open spec fn played(&self, slot: usize, param: CardParam) -> Result<Card, CancelAction> {
        if slot >= self.hand_spec().len() {
            Err(CancelAction::InvalidCard)
        } else {
            match self.hand_spec()[slot as int] {
                None => Err(CancelAction::InvalidCard),
                Some(card) => if card_cost(card) > self.draw_countdown_spec().current {
                    Err(CancelAction::NotEnoughEnergy)
                } else if !card_takes(card, param) {
                    Err(CancelAction::InvalidCard)
                } else {
                    Ok(card)
                },
            }
        }
    }

    /// Whether the player's turn can take `input`: a card that is given to
    /// a flame lies in the spent pile.
    pub open spec fn input_fits(&self, input: Input) -> bool {
        match input {
            Input::Interact(InteractiveParam::Flame { card,
                entity_id }) => self.spent_spec().contains(
                card,
            ),
            _ => true,
        }
    }

    /// What the player's turn returns for `input`.
    pub open spec fn turn_outcome(&self, input: Input) -> Result<ApplyAction, CancelAction> {
        match input {
            Input::Interact(_) => Ok(ApplyAction::Done),
            Input::Move(direction) => self.world_spec().step_outcome(
                self.player_id_spec(),
                direction,
            ),
            Input::Wait => Ok(ApplyAction::Done),
            Input::PlayCard { slot, param } => match self.played(slot, param) {
                Err(cancel) => Err(cancel),
                Ok(card) => match (card, param) {
                    (Card::Blink, CardParam::Coord(coord)) => self.blink_outcome(coord),
                    (Card::Bump,
                        CardParam::CardinalDirection(direction)) => self.world_spec().bump_outcome(
                        self.player_id_spec(),
                        direction,
                    ),
                    (Card::Spark,
                        CardParam::CardinalDirection(direction)) => match self.player_spec(
                            ).coord.step_spec(
                        direction,
                    ) {
                        Some(_) => Ok(
                            ApplyAction::Animation(
                                Animation::spark_spec(self.world_spec().next_id_spec(), direction),
                            ),
                        ),
                        None => Err(CancelAction::OutOfBounds),
                    },
                    (Card::Heal, _) => match World::healed(self.player_spec(), 1) {
                        Ok(_) => Ok(ApplyAction::Done),
                        Err(cancel) => Err(cancel),
                    },
                    _ => Ok(ApplyAction::Done),
                },
            },
        }
    }

    /// Takes the player's turn.
    ///
    /// A move is a step under the rules of [`World::step_outcome`]. A card
    /// is played from its slot if the countdown has the power it costs and
    /// it is played on what it takes; it then goes to the spent pile, or to
    /// the burnt one if it burns. What the turn costs is taken from the
    /// countdown, and a new hand is drawn when the countdown runs out.
    /// Dealing with something interactive costs nothing.
    ///
    /// Where the turn is called off, nothing has changed.
    pub fn player_turn(&mut self, input: Input, rng: &mut rand_isaac::IsaacRng) -> (r: Result<
        ApplyAction,
        CancelAction,
    >)
        requires
            old(self).wf(),
            old(self).input_fits(input),
            old(self).world_spec().next_id_spec() < u64::MAX,
            old(self).world_spec().next_light_id_spec() < u64::MAX,
        ensures
            final(self).wf(),
            r == old(self).turn_outcome(input),
            turned(old(self), final(self), input),
            r.is_err() ==> final(self).unchanged(old(self)),
            players_kept(
                old(self).world_spec().entities_spec(),
                final(self).world_spec().entities_spec(),
            ),
            final(self).world_spec().size_spec() == old(self).world_spec().size_spec(),
            final(self).world_spec().next_id_spec() <= old(self).world_spec().next_id_spec() + 1,
            final(self).world_spec().next_light_id_spec()
                <= old(self).world_spec().next_light_id_spec() + 1,
            final(self).world_spec().entities_spec().len()
                <= old(self).world_spec().entities_spec().len() + 1,
    {
        let ghost mut dealt = *self;
        let (result, cost) = match input {
            Input::Interact(param) => {
                self.interact_with(param, rng);
                proof {
                    dealt = *self;
                }
                (Ok(ApplyAction::Done), 0)
            },
            Input::Move(direction) => {
                let result = self.world.move_entity_in_direction_with_attack_policy(
                    self.player_id,
                    direction,
                );
                (result, 1)
            },
            Input::Wait => (Ok(ApplyAction::Done), 1),
            Input::PlayCard { slot, param } => {
                if slot >= self.hand.len() {
                    return Err(CancelAction::InvalidCard);
                }
                let card = match self.hand[slot] {
                    Some(card) => card,
                    None => {
                        return Err(CancelAction::InvalidCard);
                    },
                };
                if card.cost() > self.draw_countdown.current {
                    return Err(CancelAction::NotEnoughEnergy);
                }
                let (result, burns) = match (card, param) {
                    (Card::Blink, CardParam::Coord(coord)) => (self.blink(coord), false),
                    (Card::Bump, CardParam::CardinalDirection(direction)) => (
                        self.bump(direction),
                        false,
                    ),
                    (Card::Spark, CardParam::CardinalDirection(direction)) => (
                        self.spark(direction),
                        false,
                    ),
                    (Card::Heal, CardParam::Confirm) => (self.heal(1), false),
                    (Card::Clog, CardParam::Confirm) => (Ok(ApplyAction::Done), false),
                    (Card::Parasite, CardParam::Confirm) => {
                        self.world.deal_damage(self.player_id, 2);
                        (Ok(ApplyAction::Done), true)
                    },
                    (Card::Drain, CardParam::Confirm) => (Ok(ApplyAction::Done), true),
                    _ => {
                        return Err(CancelAction::InvalidCard);
                    },
                };
                if result.is_ok() {
                    self.hand[slot] = None;
                    if burns {
                        self.burnt.push(card);
                    } else {
                        self.spent.push(card);
                    }
                }
                (result, card.cost())
            },
        };
        proof {
            self.lemma_players(old(self));
            if input is Interact {
                assert(interacted(old(self), &dealt, input->Interact_0));
            }
        }
        match result {
            Err(_) => {},
            Ok(ApplyAction::Interact(_)) => {},
            _ => {
                if self.draw_countdown.current <= cost {
                    self.draw_hand();
                    self.draw_countdown.current = self.draw_countdown.max;
                } else {
                    self.draw_countdown.current = self.draw_countdown.current - cost;
                }
            },
        }
        result
    }

    /// Whether this level is `before` in everything.
    pub open spec fn unchanged(&self, before: &Gws) -> bool {
        &&& self.same_but_world(before)
        &&& self.world_spec() == before.world_spec()
    }

    /// Deals with something interactive as the player chose. A flame burns
    /// a spent card and hurts the player; a fountain puts copies of a card
    /// into the deck; an altar upgrades the player and puts a card into
    /// the deck. Each takes one hit point from what was dealt with.
    fn interact_with(&mut self, param: InteractiveParam, rng: &mut rand_isaac::IsaacRng)
        requires
            old(self).wf(),
            old(self).input_fits(Input::Interact(param)),
        ensures
            final(self).wf(),
            interacted(old(self), final(self), param),
            players_kept(
                old(self).world_spec().entities_spec(),
                final(self).world_spec().entities_spec(),
            ),
            final(self).world_spec().size_spec() == old(self).world_spec().size_spec(),
            final(self).world_spec().next_id_spec() == old(self).world_spec().next_id_spec(),
            final(self).world_spec().next_light_id_spec()
                == old(self).world_spec().next_light_id_spec(),
            final(self).world_spec().entities_spec().len()
                <= old(self).world_spec().entities_spec().len(),
    {
        let ghost start = self.world_spec().entities_spec();
        match param {
            InteractiveParam::Flame { card, entity_id } => {
                let index = position_of_card(&self.spent, card).unwrap();
                self.spent.swap_remove(index);
                self.burnt.push(card);
                self.world.deal_damage(self.player_id, 1);
                let ghost mid = self.world_spec();
                self.world.deal_damage(entity_id, 1);
                proof {
                    assert(mid.wf());
                    crate::world::tables::lemma_players_kept_twice(
                        start,
                        mid.entities_spec(),
                        self.world_spec().entities_spec(),
                    );
                }
            },
            InteractiveParam::Fountain { card, entity_id, count } => {
                push_copies(&mut self.deck, card, count);
                shuffle(&mut self.deck, rng);
                self.world.deal_damage(entity_id, 1);
            },
            InteractiveParam::Altar { character_upgrade, entity_id, card } => {
                match character_upgrade {
                    CharacterUpgrade::Life => {
                        self.world.increase_max_hit_points(self.player_id, 2);
                    },
                    CharacterUpgrade::Power => {
                        self.draw_countdown.max = if self.draw_countdown.max > u32::MAX - 2 {
                            u32::MAX
                        } else {
                            self.draw_countdown.max + 2
                        };
                    },
                    CharacterUpgrade::Hand => {
                        self.hand.push(None);
                    },
                    CharacterUpgrade::Vision => {
                        self.world.increase_light_radius(self.player_id, 30);
                    },
                }
                let ghost mid = self.world_spec();
                self.deck.push(card);
                shuffle(&mut self.deck, rng);
                self.world.deal_damage(entity_id, 1);
                proof {
                    assert(mid.wf());
                    crate::world::tables::lemma_players_kept_twice(
                        start,
                        mid.entities_spec(),
                        self.world_spec().entities_spec(),
                    );
                }
            },
        }
        proof {
            self.lemma_players(old(self));
        }
    }
}

} // verus!
