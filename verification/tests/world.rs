use gws::action::{Animation, ApplyAction, CancelAction, ProjectileMove};
use gws::colour::Rgb24;
use gws::entity::{
    BackgroundTile, ForegroundTile, HitPoints, OccupantKind, PackedEntity, PackedLight, Rational,
};
use gws::geometry::CardinalDirection::{East, North, South, West};
use gws::geometry::{CardinalDirection, Coordinate, GridSize};
use gws::world::{Instruction, World};

fn at(x: i32, y: i32) -> Coordinate {
    Coordinate::new(x, y)
}

#[test]
fn new_world_is_floor() {
    let world = World::new(GridSize::new(3, 2));
    assert_eq!(world.size(), GridSize::new(3, 2));
    assert_eq!(world.entities().len(), 0);
    assert_eq!(world.lights().len(), 0);
    let cell = world.cell(at(2, 1)).unwrap();
    assert_eq!(cell.background_tile(), BackgroundTile::Floor);
    assert!(!cell.is_solid());
    assert!(world.cell(at(3, 0)).is_none());
    assert!(world.cell(at(0, -1)).is_none());
}

#[test]
fn identities_are_given_in_order() {
    let mut world = World::new(GridSize::new(3, 3));
    assert_eq!(world.add_entity(at(0, 0), PackedEntity::player()), 0);
    assert_eq!(world.add_entity(at(1, 0), PackedEntity::bumper()), 1);
    assert_eq!(world.add_entity(at(9, 9), PackedEntity::flame()), 2);
    assert_eq!(world.next_id(), 3);
    assert_eq!(world.next_light_id(), 2);
    assert_eq!(world.npc_ids(), vec![1]);
    let flame = world.entity(2).unwrap();
    assert_eq!(flame.coord(), at(9, 9));
    assert_eq!(flame.light_index, Some(1));
    assert_eq!(world.light(1).unwrap().coord(), at(9, 9));
    assert!(world.entity(3).is_none());
}

#[test]
fn cell_records_who_stands_on_it() {
    let mut world = World::new(GridSize::new(3, 3));
    let player = world.add_entity(at(1, 1), PackedEntity::player());
    let npc = world.add_entity(at(1, 1), PackedEntity::bumper());
    let cell = world.cell(at(1, 1)).unwrap();
    assert_eq!(cell.occupants().len(), 2);
    assert!(cell.contains_player());
    assert!(cell.contains_npc());
    assert!(!cell.is_interactive());
    assert!(!cell.is_solid());
    assert_eq!(cell.first_of(OccupantKind::Npc), Some(npc));
    assert_eq!(cell.first_of(OccupantKind::Player), Some(player));
    assert_eq!(cell.first_of(OccupantKind::Character), Some(player));
    assert_eq!(cell.first_of(OccupantKind::Interactive), None);
}

#[test]
fn move_keeps_entity_cell_and_light_together() {
    let mut world = World::new(GridSize::new(3, 3));
    let player = world.add_entity(at(0, 0), PackedEntity::player());
    world.move_entity_in_direction(player, CardinalDirection::East);
    assert_eq!(world.entity(player).unwrap().coord(), at(1, 0));
    assert_eq!(world.cell(at(0, 0)).unwrap().occupants().len(), 0);
    assert_eq!(world.cell(at(1, 0)).unwrap().first_of(OccupantKind::Player), Some(player));
    assert_eq!(world.lights()[0].1.coord(), at(1, 0));
    world.move_entity_in_direction(player, CardinalDirection::North);
    assert_eq!(world.entity(player).unwrap().coord(), at(1, -1));
    assert_eq!(world.cell(at(1, 0)).unwrap().occupants().len(), 0);
    assert_eq!(world.lights()[0].1.coord(), at(1, -1));
    world.move_entity_in_direction(player, CardinalDirection::South);
    assert!(world.cell(at(1, 0)).unwrap().contains_player());
    world.move_entity_in_direction(77, CardinalDirection::South);
    assert_eq!(world.entity(player).unwrap().coord(), at(1, 0));
}

#[test]
fn step_policy() {
    let mut world = World::new(GridSize::new(4, 2));
    world.set_background(at(0, 1), BackgroundTile::IceWall);
    let player = world.add_entity(at(0, 0), PackedEntity::player());
    let npc = world.add_entity(at(1, 0), PackedEntity::bumper());
    let other = world.add_entity(at(2, 0), PackedEntity::caster());
    let flame = world.add_entity(at(3, 1), PackedEntity::flame());
    assert_eq!(
        world.move_entity_in_direction_with_attack_policy(9, North),
        Err(CancelAction::NoEntity)
    );
    assert_eq!(
        world.move_entity_in_direction_with_attack_policy(player, North),
        Err(CancelAction::OutOfBounds)
    );
    assert_eq!(
        world.move_entity_in_direction_with_attack_policy(player, South),
        Err(CancelAction::MoveIntoSolidCell)
    );
    assert_eq!(
        world.move_entity_in_direction_with_attack_policy(player, East),
        Err(CancelAction::MoveIntoNpc)
    );
    assert_eq!(
        world.move_entity_in_direction_with_attack_policy(other, West),
        Err(CancelAction::MoveIntoNpc)
    );
    assert_eq!(
        world.move_entity_in_direction_with_attack_policy(npc, West),
        Ok(ApplyAction::Animation(Animation::damage(player, West)))
    );
    assert_eq!(world.entity(npc).unwrap().coord(), at(1, 0));
    assert_eq!(world.move_entity_in_direction_with_attack_policy(npc, South),
        Ok(ApplyAction::Done));
    assert_eq!(world.entity(npc).unwrap().coord(), at(1, 1));
    assert_eq!(
        world.move_entity_in_direction_with_attack_policy(other, East),
        Ok(ApplyAction::Done)
    );
    assert_eq!(
        world.move_entity_in_direction_with_attack_policy(other, South),
        Err(CancelAction::MoveIntoSolidCell)
    );
    world.move_entity_in_direction(player, East);
    world.move_entity_in_direction(player, East);
    world.move_entity_in_direction(player, East);
    assert_eq!(
        world.move_entity_in_direction_with_attack_policy(player, South),
        Ok(ApplyAction::Interact(flame))
    );
    assert_eq!(world.entity(player).unwrap().coord(), at(3, 0));
}

#[test]
fn blink_rules() {
    let mut world = World::new(GridSize::new(12, 2));
    world.set_background(at(1, 0), BackgroundTile::IceWall);
    let player = world.add_entity(at(0, 0), PackedEntity::player());
    world.add_entity(at(2, 0), PackedEntity::healer());
    assert_eq!(world.blink_entity_to_coord(5, at(3, 0)), Err(CancelAction::NoEntity));
    assert_eq!(world.blink_entity_to_coord(player, at(12, 0)), Err(CancelAction::OutOfBounds));
    assert_eq!(world.blink_entity_to_coord(player, at(1, 0)), Err(CancelAction::MoveIntoSolidCell));
    assert_eq!(world.blink_entity_to_coord(player, at(2, 0)), Err(CancelAction::MoveIntoNpc));
    assert_eq!(world.blink_entity_to_coord(player, at(9, 0)), Err(CancelAction::OutOfRange));
    assert_eq!(world.blink_entity_to_coord(player, at(8, 1)), Err(CancelAction::OutOfRange));
    assert_eq!(world.entity(player).unwrap().coord(), at(0, 0));
    assert_eq!(
        world.blink_entity_to_coord(player, at(7, 1)),
        Ok(ApplyAction::Animation(Animation::blink(at(0, 0))))
    );
    assert_eq!(world.entity(player).unwrap().coord(), at(7, 1));
    assert_eq!(world.lights()[0].1.coord(), at(7, 1));
    assert!(world.cell(at(7, 1)).unwrap().contains_player());
    assert!(!world.cell(at(0, 0)).unwrap().contains_player());
}

#[test]
fn heal_and_damage() {
    let mut world = World::new(GridSize::new(3, 1));
    let player = world.add_entity(at(0, 0), PackedEntity::player());
    let npc = world.add_entity(at(1, 0), PackedEntity::bumper());
    let glow = world.add_entity(at(2, 0), PackedEntity::glow(Rgb24::new(1, 2, 3)));
    assert_eq!(world.heal(9, 1), Err(CancelAction::NoEntity));
    assert_eq!(world.heal(glow, 1), Err(CancelAction::NoField));
    assert_eq!(world.heal(player, 1), Ok(ApplyAction::Done));
    assert_eq!(world.entity(player).unwrap().hit_points(), Some(HitPoints::new(3, 4)));
    assert_eq!(world.heal(player, 5), Ok(ApplyAction::Done));
    assert_eq!(world.entity(player).unwrap().hit_points(), Some(HitPoints::new(4, 4)));
    assert_eq!(world.heal(player, 1), Err(CancelAction::AlreadyFullHitPoints));
    world.deal_damage(npc, 1);
    assert_eq!(world.entity(npc).unwrap().hit_points(), Some(HitPoints::new(1, 3)));
    world.deal_damage(npc, 5);
    assert!(world.entity(npc).is_none());
    assert_eq!(world.cell(at(1, 0)).unwrap().occupants().len(), 0);
    world.deal_damage(player, 9);
    assert_eq!(world.entity(player).unwrap().hit_points(), Some(HitPoints::new(0, 4)));
    assert!(world.cell(at(0, 0)).unwrap().contains_player());
    world.deal_damage(glow, 1);
    assert!(world.entity(glow).is_some());
    world.increase_max_hit_points(player, 2);
    assert_eq!(world.entity(player).unwrap().hit_points(), Some(HitPoints::new(0, 6)));
}

#[test]
fn removing_takes_light_and_record() {
    let mut world = World::new(GridSize::new(2, 1));
    let player = world.add_entity(at(0, 0), PackedEntity::player());
    let flame = world.add_entity(at(1, 0), PackedEntity::flame());
    assert!(world.cell(at(1, 0)).unwrap().is_solid());
    assert_eq!(world.lights().len(), 2);
    world.remove_entity(flame);
    assert!(world.entity(flame).is_none());
    assert_eq!(world.lights().len(), 1);
    assert_eq!(world.lights()[0].0, 0);
    assert!(!world.cell(at(1, 0)).unwrap().is_solid());
    world.remove_entity(player);
    assert!(world.entity(player).is_some());
    world.remove_entity(flame);
    assert_eq!(world.entities().len(), 1);
}

#[test]
fn opacity_of_cells() {
    let mut world = World::new(GridSize::new(4, 1));
    world.set_background(at(1, 0), BackgroundTile::IceWall);
    world.set_background(at(2, 0), BackgroundTile::Ground);
    world.add_entity(at(2, 0), PackedEntity::block());
    let mut tree = PackedEntity::default();
    tree.foreground_tile = Some(ForegroundTile::Tree);
    world.add_entity(at(3, 0), tree);
    world.add_entity(at(0, 0), PackedEntity::player());
    assert_eq!(world.opacity(at(0, 0)), 0);
    assert_eq!(world.opacity(at(1, 0)), 128);
    assert_eq!(world.opacity(at(2, 0)), 255);
    assert_eq!(world.opacity(at(3, 0)), 128);
    assert_eq!(world.opacity_checked(at(4, 0)), 255);
    assert_eq!(world.solid_checked(at(2, 0)), Some(true));
    assert_eq!(world.solid_checked(at(3, 0)), Some(false));
    assert_eq!(world.solid_checked(at(-1, 0)), None);
    assert_eq!(world.occupied_checked(at(0, 0)), Some(false));
}

#[test]
fn blocks_expire() {
    let mut world = World::new(GridSize::new(2, 1));
    let block = world.add_entity(at(0, 0), PackedEntity::block());
    let npc = world.add_entity(at(1, 0), PackedEntity::bumper());
    for left in [3, 2, 1, 0] {
        world.reduce_remaining_turns();
        assert_eq!(world.entity(block).unwrap().remaining_turns, Some(left));
    }
    assert!(world.cell(at(0, 0)).unwrap().is_solid());
    world.reduce_remaining_turns();
    assert!(world.entity(block).is_none());
    assert!(!world.cell(at(0, 0)).unwrap().is_solid());
    assert_eq!(world.entity(npc).unwrap().remaining_turns, None);
}

#[test]
fn sparks_and_projectiles() {
    let mut world = World::new(GridSize::new(4, 1));
    world.set_background(at(3, 0), BackgroundTile::IceWall);
    let player = world.add_entity(at(0, 0), PackedEntity::player());
    assert_eq!(
        world.spark_in_direction(player, CardinalDirection::East),
        Ok(ApplyAction::Animation(Animation::spark(1, CardinalDirection::East)))
    );
    assert_eq!(world.spark_in_direction(8, CardinalDirection::East), Err(CancelAction::NoEntity));
    let spark = world.entity(1).unwrap();
    assert!(spark.is_projectile());
    assert_eq!(spark.coord(), at(1, 0));
    assert_eq!(
        world.can_move_projectile_in_direction(1, CardinalDirection::East),
        Ok(ProjectileMove::Continue)
    );
    assert_eq!(
        world.can_move_projectile_in_direction(1, CardinalDirection::West),
        Ok(ProjectileMove::HitCharacter(player))
    );
    assert_eq!(
        world.can_move_projectile_in_direction(1, CardinalDirection::North),
        Err(CancelAction::OutOfBounds)
    );
    world.move_entity_in_direction(1, CardinalDirection::East);
    assert_eq!(
        world.can_move_projectile_in_direction(1, CardinalDirection::East),
        Ok(ProjectileMove::HitObstacle)
    );
    assert_eq!(
        world.can_move_projectile_in_direction(4, CardinalDirection::East),
        Err(CancelAction::NoEntity)
    );
}

#[test]
fn bump_strikes_the_first_actor() {
    let mut world = World::new(GridSize::new(2, 1));
    let player = world.add_entity(at(0, 0), PackedEntity::player());
    let npc = world.add_entity(at(1, 0), PackedEntity::bumper());
    assert_eq!(
        world.bump_npc_in_direction(player, East),
        Ok(ApplyAction::Animation(Animation::damage(npc, East)))
    );
    assert_eq!(world.bump_npc_in_direction(player, West), Err(CancelAction::OutOfBounds));
    assert_eq!(world.bump_npc_in_direction(npc, West), Err(CancelAction::NothingToAttack));
    assert_eq!(world.bump_npc_in_direction(7, West), Err(CancelAction::NoEntity));
}

#[test]
fn lights_can_be_changed() {
    let mut world = World::new(GridSize::new(2, 1));
    let player = world.add_entity(at(0, 0), PackedEntity::player());
    let npc = world.add_entity(at(1, 0), PackedEntity::bumper());
    world.set_light_params(player, Rgb24::new(1, 2, 3), Rational::new(2, 3));
    world.set_light_diminish_denom(player, 7);
    world.increase_light_radius(player, 30);
    world.set_light_params(npc, Rgb24::new(9, 9, 9), Rational::new(1, 1));
    let light = world.lights()[0].1;
    assert_eq!(light.colour, Rgb24::new(1, 2, 3));
    assert_eq!(light.diminish, Rational::new(2, 7));
    assert_eq!(light.range_squared(), 60);
    assert_eq!(world.lights().len(), 1);
    assert_eq!(
        world.pack_entity(player).light,
        Some(PackedLight::new(Rgb24::new(1, 2, 3), 60, Rational::new(2, 7)))
    );
    assert_eq!(world.pack_entity(npc), PackedEntity::bumper());
    world.set_foreground(npc, ForegroundTile::Healer);
    world.set_heal_countdown(npc, Some(2)).unwrap();
    world.set_taking_damage_in_direction(npc, Some(CardinalDirection::West));
    let e = world.entity(npc).unwrap();
    assert_eq!(e.foreground_tile(), Some(ForegroundTile::Healer));
    assert_eq!(e.heal_countdown(), Some(2));
    assert_eq!(e.taking_damage_in_direction(), Some(CardinalDirection::West));
    assert!(e.is_npc());
    assert_eq!(e.id(), npc);
}

#[test]
fn instructions_build_the_world() {
    let mut world = World::new(GridSize::new(2, 2));
    world.interpret_instruction(Instruction::SetBackground(at(1, 1), BackgroundTile::IceWall));
    world.interpret_instruction(Instruction::AddEntity(at(0, 1), PackedEntity::altar()));
    assert!(world.cell(at(1, 1)).unwrap().is_solid());
    assert!(world.cell(at(0, 1)).unwrap().is_interactive());
    assert_eq!(world.entity(0).unwrap().hit_points(), Some(HitPoints::new(1, 1)));
}

#[test]
fn probe_between_actors() {
    let mut world = World::new(GridSize::new(6, 3));
    assert!(world.can_see(at(0, 0), at(5, 2), 16));
    assert!(world.can_see(at(0, 0), at(0, 0), 16));
    assert!(!world.can_see(at(0, 0), at(5, 2), 5));
    assert!(world.can_see(at(0, 0), at(5, 2), 6));
    assert!(!world.can_see(at(0, 0), at(6, 0), 16));
    world.set_background(at(2, 0), BackgroundTile::IceWall);
    assert!(world.can_see(at(0, 0), at(4, 0), 16));
    world.set_background(at(3, 0), BackgroundTile::IceWall);
    assert!(!world.can_see(at(0, 0), at(4, 0), 16));
    assert!(!world.can_see(at(4, 0), at(0, 0), 16));
    world.add_entity(at(1, 2), PackedEntity::block());
    assert!(!world.can_see(at(0, 2), at(2, 2), 16));
    assert!(!world.can_see(at(1, 2), at(1, 2), 16));
    assert!(world.can_see(at(0, 1), at(5, 1), 16));
}

#[test]
fn what_stands_on_a_cell() {
    let mut world = World::new(GridSize::new(2, 1));
    let glow = world.add_entity(at(1, 0), PackedEntity::glow(Rgb24::new(1, 1, 1)));
    let npc = world.add_entity(at(1, 0), PackedEntity::caster());
    let player = world.add_entity(at(1, 0), PackedEntity::player());
    let ids: Vec<u64> = world.entities_at(at(1, 0)).iter().map(|e| e.id()).collect();
    assert_eq!(ids, vec![glow, npc, player]);
    assert_eq!(
        world.foreground_tiles(at(1, 0)),
        vec![ForegroundTile::Caster, ForegroundTile::Player]
    );
    assert_eq!(world.entities_at(at(0, 0)).len(), 0);
    assert_eq!(world.foreground_tiles(at(5, 0)).len(), 0);
    world.move_entity_in_direction(npc, West);
    assert_eq!(world.foreground_tiles(at(1, 0)), vec![ForegroundTile::Player]);
    assert_eq!(world.foreground_tiles(at(0, 0)), vec![ForegroundTile::Caster]);
}
