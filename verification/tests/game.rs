use gws::action::{Animation, AnimationState, ApplyAction, CancelAction};
use gws::animation::{BLINK_ANIMATION_PERIOD, DAMAGE_ANIMATION_PERIOD};
use gws::colour::Rgb24;
use gws::entity::{BackgroundTile, ForegroundTile, HitPoints, PackedEntity};
use gws::cards::{negative_cards, positive_cards, select_card, Card, CardChoice, CardParam};
use gws::game::{
    BetweenLevels, CharacterUpgrade, End, Gws, Input, InteractiveParam, InteractiveType, Tick,
    Turn,
};
use gws::intent::{
    clean_shot, decide, intent, is_clean_along, is_in_cast_line, someone_to_heal,
};
use gws::geometry::{CardinalDirection, Coordinate, GridSize};
use gws::pathfinding::CommitmentType;
use gws::terrain::TerrainDescription;
use gws::world::{Instruction, World};
use rand::SeedableRng;
use rand_isaac::IsaacRng;

fn at(x: i32, y: i32) -> Coordinate {
    Coordinate::new(x, y)
}

fn corridor(width: u32, extra: Vec<Instruction>) -> (Gws, IsaacRng) {
    let mut rng = IsaacRng::seed_from_u64(7);
    let terrain = TerrainDescription::new(at(0, 0), GridSize::new(width, 1), extra);
    assert!(terrain.is_wf());
    let game = Gws::new(terrain, None, &mut rng);
    (game, rng)
}

#[test]
fn card_costs() {
    let costs: Vec<u32> = [
        Card::Bump,
        Card::Blink,
        Card::Heal,
        Card::Spark,
        Card::Clog,
        Card::Parasite,
        Card::Drain,
    ]
    .iter()
    .map(|c| c.cost())
    .collect();
    assert_eq!(costs, vec![10, 20, 5, 20, 10, 10, 40]);
}

#[test]
fn first_level_starts_with_twenty_cards() {
    let initial = BetweenLevels::initial();
    assert_eq!(initial.deck.len(), 20);
    assert_eq!(initial.deck.iter().filter(|c| **c == Card::Bump).count(), 6);
    assert_eq!(initial.deck.iter().filter(|c| **c == Card::Blink).count(), 4);
    assert_eq!(initial.deck[0], Card::Spark);
    assert_eq!(initial.deck[19], Card::Blink);
    assert_eq!(initial.hand_size, 5);
    assert_eq!(initial.max_draw_countdown, 40);
    assert_eq!(initial.player, PackedEntity::player());
}

#[test]
fn new_level() {
    let (game, _) = corridor(9, vec![]);
    assert_eq!(game.turn(), Turn::Player);
    assert_eq!(game.player().coord(), at(0, 0));
    assert_eq!(game.hand().len(), 5);
    assert!(game.hand().iter().all(|c| c.is_some()));
    assert_eq!(game.deck().len(), 15);
    assert_eq!(game.spent().len() + game.waste().len() + game.burnt().len(), 0);
    assert_eq!(game.draw_countdown().current, 40);
    assert_eq!(game.visible_area().state().count, 2);
    assert!(game.room_left());
    assert!(game.check_end().is_none());
    assert_eq!(game.upgrade_choices().len(), 4);
    let render = game.to_render();
    assert_eq!(render.player.id(), game.player_id());
}

#[test]
fn teleport_needs_a_lit_destination() {
    let (mut game, _) = corridor(9, vec![]);
    let state = game.visible_area().state();
    let dark = at(6, 0);
    assert!(game.visible_area().is_visible(dark, state));
    assert!(game.visible_area().is_discovered(dark));
    assert_eq!(game.visible_area().light_colour(dark, state), Rgb24::black());
    assert_eq!(game.blink(dark), Err(CancelAction::DestinationNotVisible));
    assert_eq!(game.player().coord(), at(0, 0));
    let lit = at(2, 0);
    assert_ne!(game.visible_area().light_colour(lit, state), Rgb24::black());
    assert_eq!(game.blink(lit), Ok(ApplyAction::Animation(Animation::blink(at(0, 0)))));
    assert_eq!(game.player().coord(), lit);
    assert_eq!(game.blink(at(40, 0)), Err(CancelAction::DestinationNotVisible));
}

#[test]
fn refused_turns_change_nothing() {
    let (mut game, mut rng) = corridor(3, vec![]);
    let wrong = match game.hand()[0].unwrap() {
        Card::Blink => CardParam::Confirm,
        _ => CardParam::Coord(at(1, 0)),
    };
    let before_hand = game.hand().clone();
    assert_eq!(
        game.player_turn(Input::PlayCard { slot: 0, param: wrong }, &mut rng),
        Err(CancelAction::InvalidCard)
    );
    assert_eq!(
        game.player_turn(Input::PlayCard { slot: 5, param: CardParam::Confirm }, &mut rng),
        Err(CancelAction::InvalidCard)
    );
    assert_eq!(
        game.player_turn(Input::Move(CardinalDirection::North), &mut rng),
        Err(CancelAction::OutOfBounds)
    );
    assert_eq!(game.hand(), &before_hand);
    assert_eq!(game.draw_countdown().current, 40);
    assert_eq!(game.player().coord(), at(0, 0));
}

#[test]
fn moving_costs_one_power() {
    let (mut game, mut rng) = corridor(3, vec![]);
    assert_eq!(
        game.player_turn(Input::Move(CardinalDirection::East), &mut rng),
        Ok(ApplyAction::Done)
    );
    assert_eq!(game.player().coord(), at(1, 0));
    assert_eq!(game.draw_countdown().current, 39);
    assert_eq!(game.player_turn(Input::Wait, &mut rng), Ok(ApplyAction::Done));
    assert_eq!(game.draw_countdown().current, 38);
}

#[test]
fn hand_is_drawn_when_power_runs_out() {
    let (mut game, mut rng) = corridor(3, vec![]);
    for _ in 0..39 {
        game.player_turn(Input::Wait, &mut rng).unwrap();
    }
    assert_eq!(game.draw_countdown().current, 1);
    assert_eq!(game.waste().len(), 0);
    game.player_turn(Input::Wait, &mut rng).unwrap();
    assert_eq!(game.draw_countdown().current, 40);
    assert_eq!(game.waste().len(), 5);
    assert_eq!(game.deck().len(), 10);
    assert!(game.hand().iter().all(|c| c.is_some()));
}

#[test]
fn playing_a_card_spends_it() {
    let (mut game, mut rng) = corridor(3, vec![]);
    let slot = game.hand().iter().position(|c| *c == Some(Card::Heal));
    if let Some(slot) = slot {
        assert_eq!(
            game.player_turn(Input::PlayCard { slot, param: CardParam::Confirm }, &mut rng),
            Ok(ApplyAction::Done)
        );
        assert_eq!(game.hand()[slot], None);
        assert_eq!(game.spent(), &vec![Card::Heal]);
        assert_eq!(game.draw_countdown().current, 35);
        assert_eq!(game.player().hit_points(), Some(HitPoints::new(3, 4)));
    }
    let slot = game.hand().iter().position(|c| *c == Some(Card::Spark));
    if let Some(slot) = slot {
        let before = game.draw_countdown().current;
        let param = CardParam::CardinalDirection(CardinalDirection::East);
        let result = game.player_turn(Input::PlayCard { slot, param }, &mut rng);
        assert!(matches!(result, Ok(ApplyAction::Animation(_))));
        assert_eq!(game.draw_countdown().current, before - 20);
        assert!(game.world().cell(at(1, 0)).unwrap().occupants().len() == 1);
    }
}

#[test]
fn actors_close_in_and_strike() {
    let npc = Instruction::AddEntity(at(3, 0), PackedEntity::bumper());
    let (mut game, mut rng) = corridor(5, vec![npc]);
    assert_eq!(
        game.pathfinding().committed_actions().to_vec(),
        vec![(0, CardinalDirection::West, CommitmentType::Move)]
    );
    assert!(game.tick(Some(Input::Wait), 0, &mut rng).is_none());
    assert_eq!(game.world().entity(0).unwrap().coord(), at(2, 0));
    assert_eq!(game.turn(), Turn::Player);
    assert!(game.tick(Some(Input::Wait), 0, &mut rng).is_none());
    assert_eq!(game.world().entity(0).unwrap().coord(), at(1, 0));
    assert_eq!(
        game.pathfinding().committed_actions().to_vec(),
        vec![(0, CardinalDirection::West, CommitmentType::Move)]
    );
    assert!(!game.pathfinding().commitment_grid().is_committed(at(0, 0)));
    // the actor strikes: the blow shows, then lands
    assert!(game.tick(Some(Input::Wait), 0, &mut rng).is_none());
    assert_eq!(game.world().entity(0).unwrap().coord(), at(1, 0));
    assert_eq!(
        game.player().taking_damage_in_direction(),
        Some(CardinalDirection::West)
    );
    assert!(game.tick(None, DAMAGE_ANIMATION_PERIOD, &mut rng).is_none());
    assert_eq!(game.player().hit_points(), Some(HitPoints::new(1, 4)));
    assert_eq!(game.player().taking_damage_in_direction(), None);
}

#[test]
fn the_player_dies_without_hit_points() {
    let npc = Instruction::AddEntity(at(1, 0), PackedEntity::bumper());
    let (mut game, mut rng) = corridor(2, vec![npc]);
    let mut ended = None;
    for _ in 0..12 {
        match game.tick(Some(Input::Wait), DAMAGE_ANIMATION_PERIOD, &mut rng) {
            Some(Tick::End(end)) => {
                ended = Some(end);
                break;
            }
            _ => {}
        }
    }
    assert!(matches!(ended, Some(End::PlayerDied)));
    assert_eq!(game.player().hit_points().unwrap().current, 0);
}

#[test]
fn stairs_end_the_level() {
    let mut stairs = PackedEntity::default();
    stairs.foreground_tile = Some(ForegroundTile::Stairs);
    let (mut game, mut rng) = corridor(3, vec![Instruction::AddEntity(at(1, 0), stairs)]);
    match game.tick(Some(Input::Move(CardinalDirection::East)), 0, &mut rng) {
        Some(Tick::End(End::ExitLevel(next))) => {
            assert_eq!(next.deck.len(), 20);
            assert_eq!(next.hand_size, 5);
            assert_eq!(next.player.hit_points, Some(HitPoints::new(2, 4)));
            assert!(next.player.player);
            let mut rng2 = IsaacRng::seed_from_u64(1);
            let terrain = TerrainDescription::new(at(1, 1), GridSize::new(3, 3), vec![]);
            let second = Gws::new(terrain, Some(next), &mut rng2);
            assert_eq!(second.hand().len(), 5);
            assert_eq!(second.deck().len(), 15);
            assert_eq!(second.player().coord(), at(1, 1));
        }
        _ => panic!("the level should have ended"),
    }
}

#[test]
fn walking_into_a_flame_asks_what_to_do() {
    let flame = Instruction::AddEntity(at(1, 0), PackedEntity::flame());
    let (mut game, mut rng) = corridor(3, vec![flame]);
    match game.tick(Some(Input::Move(CardinalDirection::East)), 0, &mut rng) {
        Some(Tick::Interact(interactive)) => {
            assert_eq!(interactive.entity_id, 0);
            assert_eq!(interactive.typ, InteractiveType::Flame);
        }
        _ => panic!("the flame should have asked"),
    }
    assert_eq!(game.player().coord(), at(0, 0));
    assert_eq!(game.draw_countdown().current, 40);
    let fountain = InteractiveParam::Fountain { card: Card::Drain, entity_id: 0, count: 3 };
    assert_eq!(game.player_turn(Input::Interact(fountain), &mut rng), Ok(ApplyAction::Done));
    assert_eq!(game.deck().len(), 18);
    assert_eq!(game.deck().iter().filter(|c| **c == Card::Drain).count(), 3);
    assert_eq!(game.world().entity(0).unwrap().hit_points(), Some(HitPoints::new(2, 3)));
    let altar = InteractiveParam::Altar {
        character_upgrade: CharacterUpgrade::Hand,
        card: Card::Clog,
        entity_id: 0,
    };
    assert_eq!(game.player_turn(gws::game::interact(altar), &mut rng), Ok(ApplyAction::Done));
    assert_eq!(game.hand().len(), 6);
    assert_eq!(game.deck().len(), 19);
    assert_eq!(game.draw_countdown().current, 40);
}

#[test]
fn intents_of_the_actors() {
    let mut world = World::new(GridSize::new(8, 3));
    let player = at(0, 1);
    world.add_entity(player, PackedEntity::player());
    let caster = world.add_entity(at(5, 1), PackedEntity::caster());
    let healer = world.add_entity(at(5, 2), PackedEntity::healer());
    let bumper = world.add_entity(at(4, 0), PackedEntity::bumper());
    let get = |w: &World, id| intent(w, w.entity(id).unwrap(), player);
    assert_eq!(get(&world, caster), Some(CommitmentType::Cast));
    assert_eq!(get(&world, bumper), Some(CommitmentType::Move));
    assert_eq!(get(&world, healer), Some(CommitmentType::Heal(3)));
    assert!(someone_to_heal(&world, at(5, 2)));
    world.set_heal_countdown(healer, Some(3)).unwrap();
    assert_eq!(get(&world, healer), Some(CommitmentType::Heal(2)));
    world.set_heal_countdown(healer, Some(0)).unwrap();
    assert_eq!(get(&world, healer), None);
    let blocker = world.add_entity(at(2, 1), PackedEntity::bumper());
    assert!(!clean_shot(&world, at(5, 1), player));
    assert_eq!(get(&world, caster), Some(CommitmentType::Move));
    world.remove_entity(blocker);
    assert!(clean_shot(&world, at(5, 1), player));
    world.set_background(at(3, 1), BackgroundTile::IceWall);
    world.set_background(at(4, 1), BackgroundTile::IceWall);
    assert_eq!(get(&world, caster), None);
}

#[test]
fn animations_move_on() {
    let mut world = World::new(GridSize::new(4, 1));
    let player = world.add_entity(at(0, 0), PackedEntity::player());
    let flash = Animation::blink(at(2, 0));
    assert_eq!(flash.tick(0, &mut world).map(|a| a.next_update_in), Some(BLINK_ANIMATION_PERIOD));
    let flash_id = 1;
    assert!(world.entity(flash_id).is_some());
    let waiting = Animation::new(10, AnimationState::Blink { id: flash_id, stage: 0 });
    assert_eq!(
        waiting.tick(4, &mut world),
        Some(Animation::new(6, AnimationState::Blink { id: flash_id, stage: 0 }))
    );
    let next = waiting.tick(10, &mut world).unwrap();
    assert_eq!(next.state, AnimationState::Blink { id: flash_id, stage: 1 });
    assert_eq!(
        world.entity(flash_id).unwrap().foreground_tile(),
        Some(ForegroundTile::Blink1)
    );
    assert_eq!(next.tick(BLINK_ANIMATION_PERIOD, &mut world), None);
    assert!(world.entity(flash_id).is_none());
    let spark = match world.spark_in_direction(player, CardinalDirection::East) {
        Ok(ApplyAction::Animation(a)) => a,
        _ => panic!("no spark"),
    };
    let flying = spark.tick(0, &mut world).unwrap();
    assert_eq!(world.entity(2).unwrap().coord(), at(2, 0));
    let flying = flying.tick(flying.next_update_in, &mut world).unwrap();
    assert_eq!(world.entity(2).unwrap().coord(), at(3, 0));
    assert_eq!(flying.tick(flying.next_update_in, &mut world), None);
    assert!(world.entity(2).is_none());
    let glow = world.add_entity(at(1, 0), PackedEntity::glow(Rgb24::new(255, 255, 0)));
    let mut fading = Some(Animation::glow_fade_out(glow, 2));
    let mut steps = 0;
    while let Some(a) = fading {
        fading = a.tick(a.next_update_in, &mut world);
        steps += 1;
    }
    assert_eq!(steps, 3);
    assert!(world.entity(glow).is_none());
}

#[test]
fn the_deck_is_shuffled() {
    let (game, _) = corridor(3, vec![]);
    let mut cards: Vec<Card> = game.deck().clone();
    cards.extend(game.hand().iter().rev().filter_map(|c| *c));
    assert_ne!(cards, BetweenLevels::initial().deck);
    let count = |cards: &Vec<Card>, card: Card| cards.iter().filter(|c| **c == card).count();
    for card in [Card::Spark, Card::Bump, Card::Heal, Card::Blink, Card::Drain] {
        assert_eq!(count(&cards, card), count(&BetweenLevels::initial().deck, card));
    }
}

#[test]
fn a_card_needs_its_power() {
    let (mut game, mut rng) = corridor(3, vec![]);
    for _ in 0..36 {
        game.player_turn(Input::Wait, &mut rng).unwrap();
    }
    assert_eq!(game.draw_countdown().current, 4);
    let slot = game.hand().iter().position(|c| c.is_some()).unwrap();
    let param = match game.hand()[slot].unwrap() {
        Card::Blink => CardParam::Coord(at(1, 0)),
        Card::Bump | Card::Spark => CardParam::CardinalDirection(CardinalDirection::East),
        _ => CardParam::Confirm,
    };
    assert_eq!(
        game.player_turn(Input::PlayCard { slot, param }, &mut rng),
        Err(CancelAction::NotEnoughEnergy)
    );
    assert_eq!(game.draw_countdown().current, 4);
    assert!(game.hand()[slot].is_some());
}

#[test]
fn burning_a_spent_card() {
    let flame = Instruction::AddEntity(at(1, 0), PackedEntity::flame());
    let (mut game, mut rng) = corridor(3, vec![flame]);
    let mut played = Vec::new();
    for slot in 0..5 {
        let card = game.hand()[slot].unwrap();
        let param = match card {
            Card::Heal => CardParam::Confirm,
            _ => continue,
        };
        if game.player_turn(Input::PlayCard { slot, param }, &mut rng).is_ok() {
            played.push(card);
        }
    }
    if let Some(card) = played.first() {
        let spent = game.spent().len();
        let burn = InteractiveParam::Flame { card: *card, entity_id: 0 };
        assert_eq!(game.player_turn(Input::Interact(burn), &mut rng), Ok(ApplyAction::Done));
        assert_eq!(game.spent().len(), spent - 1);
        assert_eq!(game.burnt(), &vec![*card]);
        assert_eq!(game.world().entity(0).unwrap().hit_points(), Some(HitPoints::new(2, 3)));
    }
}

#[test]
fn what_an_actor_decides() {
    let mut world = World::new(GridSize::new(8, 3));
    let player = at(0, 1);
    let caster = world.add_entity(at(5, 1), PackedEntity::caster());
    let healer = world.add_entity(at(5, 2), PackedEntity::healer());
    let bumper = world.add_entity(at(4, 1), PackedEntity::bumper());
    let caster = world.entity(caster).unwrap();
    let bumper = world.entity(bumper).unwrap();
    assert_eq!(decide(&caster, player, false, true, true), None);
    assert_eq!(decide(&caster, player, true, true, false), Some(CommitmentType::Cast));
    assert_eq!(decide(&caster, player, true, false, true), Some(CommitmentType::Move));
    assert_eq!(decide(&caster, at(0, 0), true, true, true), Some(CommitmentType::Move));
    assert_eq!(decide(&caster, at(5, 2), true, true, true), Some(CommitmentType::Cast));
    assert_eq!(decide(&bumper, player, true, true, true), Some(CommitmentType::Move));
    assert_eq!(decide(&bumper, player, false, false, false), None);
    let idle = world.entity(healer).unwrap();
    assert_eq!(decide(&idle, player, true, false, true), Some(CommitmentType::Heal(3)));
    assert_eq!(decide(&idle, player, true, true, false), Some(CommitmentType::Move));
    assert_eq!(decide(&idle, player, false, true, true), None);
    world.set_heal_countdown(healer, Some(2)).unwrap();
    let counting = world.entity(healer).unwrap();
    assert_eq!(decide(&counting, player, true, false, false), Some(CommitmentType::Heal(1)));
    world.set_heal_countdown(healer, Some(0)).unwrap();
    let done = world.entity(healer).unwrap();
    assert_eq!(decide(&done, player, true, false, true), None);
}

#[test]
fn a_caster_casts_within_its_range_only() {
    let mut world = World::new(GridSize::new(12, 1));
    let caster = world.add_entity(at(8, 0), PackedEntity::caster());
    let caster = world.entity(caster).unwrap();
    assert!(!is_in_cast_line(&caster, at(0, 0)));
    assert!(is_in_cast_line(&caster, at(1, 0)));
    assert!(!is_in_cast_line(&caster, at(7, 1)));
    assert_eq!(decide(&caster, at(0, 0), true, true, false), Some(CommitmentType::Move));
    assert_eq!(decide(&caster, at(1, 0), true, true, false), Some(CommitmentType::Cast));
}

#[test]
fn a_shot_is_clean_along_free_cells() {
    let mut world = World::new(GridSize::new(6, 2));
    world.add_entity(at(2, 0), PackedEntity::bumper());
    world.set_background(at(4, 1), BackgroundTile::IceWall);
    assert!(is_clean_along(&world, &vec![]));
    assert!(is_clean_along(&world, &vec![at(0, 0), at(1, 0), at(3, 0)]));
    assert!(is_clean_along(&world, &vec![at(-1, 0), at(6, 5)]));
    assert!(!is_clean_along(&world, &vec![at(1, 0), at(2, 0)]));
    assert!(!is_clean_along(&world, &vec![at(4, 1), at(5, 1)]));
    assert!(clean_shot(&world, at(3, 1), at(3, 1)));
    assert!(clean_shot(&world, at(0, 1), at(3, 1)));
    assert!(!clean_shot(&world, at(0, 1), at(5, 1)));
    assert!(clean_shot(&world, at(2, 0), at(2, 1)));
    assert!(clean_shot(&world, at(0, 1), at(4, 1)));
    assert!(!clean_shot(&world, at(0, 0), at(3, 0)));
    assert!(clean_shot(&world, at(2, 0), at(5, 0)));
}

#[test]
fn what_altars_and_fountains_offer() {
    assert_eq!(negative_cards(), vec![Card::Clog, Card::Parasite, Card::Drain]);
    assert_eq!(positive_cards(), vec![Card::Bump, Card::Blink, Card::Heal, Card::Spark]);
}

#[test]
fn choices_are_drawn_without_repeats() {
    let (game, mut rng) = corridor(9, vec![]);
    for amount in 0..7 {
        let cards = game.choose_negative_cards(amount, &mut rng);
        assert_eq!(cards.len(), amount.min(3));
        assert!(cards.iter().all(|c| negative_cards().contains(c)));
        for (i, card) in cards.iter().enumerate() {
            assert!(!cards[..i].contains(card));
        }
        let cards = game.choose_positive_cards(amount, &mut rng);
        assert_eq!(cards.len(), amount.min(4));
        assert!(cards.iter().all(|c| positive_cards().contains(c)));
        for (i, card) in cards.iter().enumerate() {
            assert!(!cards[..i].contains(card));
        }
        let upgrades = game.choose_upgrades(amount, &mut rng);
        assert_eq!(upgrades.len(), amount.min(4));
        for (i, upgrade) in upgrades.iter().enumerate() {
            assert!(game.upgrade_choices().contains(upgrade));
            assert!(!upgrades[..i].contains(upgrade));
        }
    }
}

#[test]
fn picking_a_hand_slot() {
    let hand = vec![
        Some(Card::Bump),
        None,
        Some(Card::Blink),
        Some(Card::Drain),
        Some(Card::Heal),
        Some(Card::Spark),
    ];
    let player = at(3, 4);
    assert_eq!(select_card(&hand, 40, 0, player), CardChoice::Direction);
    assert_eq!(select_card(&hand, 40, 1, player), CardChoice::Empty);
    assert_eq!(select_card(&hand, 40, 2, player), CardChoice::Location(player));
    assert_eq!(select_card(&hand, 40, 3, player), CardChoice::Confirm);
    assert_eq!(select_card(&hand, 40, 4, player), CardChoice::Confirm);
    assert_eq!(select_card(&hand, 40, 5, player), CardChoice::Direction);
    assert_eq!(select_card(&hand, 40, 6, player), CardChoice::Locked);
    assert_eq!(select_card(&hand, 39, 3, player), CardChoice::NotEnoughPower);
    assert_eq!(select_card(&hand, 10, 0, player), CardChoice::Direction);
    assert_eq!(select_card(&hand, 9, 0, player), CardChoice::NotEnoughPower);
    assert_eq!(select_card(&hand, 19, 2, player), CardChoice::NotEnoughPower);
    assert_eq!(select_card(&hand, 0, 1, player), CardChoice::Empty);
    assert_eq!(select_card(&hand, 0, 9, player), CardChoice::Locked);
    assert_eq!(select_card(&vec![], 40, 0, player), CardChoice::Locked);
}
