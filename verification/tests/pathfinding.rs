use gws::entity::{BackgroundTile, PackedEntity};
use gws::geometry::{CardinalDirection, Coordinate, GridSize};
use gws::pathfinding::{
    first_step_of, CommitmentGrid, CommitmentType, PathfindingContext, Solid, SolidOrOccupied,
};
use grid_search::SolidGrid;
use gws::world::World;

fn open_room() -> (World, u64, u64) {
    let mut world = World::new(GridSize::new(5, 5));
    let player = world.add_entity(Coordinate::new(2, 2), PackedEntity::player());
    let npc = world.add_entity(Coordinate::new(4, 4), PackedEntity::bumper());
    (world, player, npc)
}

#[test]
fn distance_field_of_open_room() {
    let size = GridSize::new(5, 5);
    let world = World::new(size);
    let mut context = PathfindingContext::new(size);
    context.update_player_coord(Coordinate::new(2, 2), &world);
    assert_eq!(context.distance_to_player(Coordinate::new(2, 2)), Some(0));
    assert_eq!(context.distance_to_player(Coordinate::new(4, 4)), Some(4));
    assert_eq!(context.distance_to_player(Coordinate::new(0, 2)), Some(2));
    assert_eq!(context.distance_to_player(Coordinate::new(5, 5)), None);
}

#[test]
fn distance_field_is_empty_before_first_update() {
    let context = PathfindingContext::new(GridSize::new(3, 3));
    assert_eq!(context.distance_to_player(Coordinate::new(1, 1)), None);
    assert_eq!(context.committed_actions().len(), 0);
}

#[test]
fn walled_off_cell_has_no_distance() {
    let size = GridSize::new(5, 5);
    let mut world = World::new(size);
    for (x, y) in [(3, 4), (3, 3), (4, 3)] {
        world.set_background(Coordinate::new(x, y), BackgroundTile::IceWall);
    }
    let mut context = PathfindingContext::new(size);
    context.update_player_coord(Coordinate::new(0, 0), &world);
    assert_eq!(context.distance_to_player(Coordinate::new(4, 4)), None);
    assert_eq!(context.distance_to_player(Coordinate::new(3, 3)), None);
    assert_eq!(context.distance_to_player(Coordinate::new(2, 4)), Some(6));
    assert_eq!(context.distance_to_player(Coordinate::new(4, 2)), Some(6));
}

#[test]
fn actor_in_walled_off_cell_commits_to_nothing() {
    let size = GridSize::new(5, 5);
    let mut world = World::new(size);
    for (x, y) in [(3, 4), (3, 3), (4, 3)] {
        world.set_background(Coordinate::new(x, y), BackgroundTile::IceWall);
    }
    world.add_entity(Coordinate::new(0, 0), PackedEntity::player());
    let npc = world.add_entity(Coordinate::new(4, 4), PackedEntity::bumper());
    let mut context = PathfindingContext::new(size);
    context.update_player_coord(Coordinate::new(0, 0), &world);
    context.commit_action(npc, &world, CommitmentType::Move);
    assert_eq!(context.committed_actions().len(), 0);
}

#[test]
fn actor_next_to_walled_off_cell_never_steps_toward_it() {
    let size = GridSize::new(5, 5);
    let mut world = World::new(size);
    for (x, y) in [(3, 4), (3, 3), (4, 3)] {
        world.set_background(Coordinate::new(x, y), BackgroundTile::IceWall);
    }
    world.add_entity(Coordinate::new(0, 0), PackedEntity::player());
    let npc = world.add_entity(Coordinate::new(4, 2), PackedEntity::bumper());
    let mut context = PathfindingContext::new(size);
    context.update_player_coord(Coordinate::new(0, 0), &world);
    context.commit_action(npc, &world, CommitmentType::Move);
    let actions = context.committed_actions();
    assert_eq!(actions.len(), 1);
    assert_ne!(actions[0].1, CardinalDirection::South);
}

#[test]
fn round_trip_open_room() {
    let (world, _player, npc) = open_room();
    let mut context = PathfindingContext::new(world.size());
    context.update_player_coord(Coordinate::new(2, 2), &world);
    context.commit_action(npc, &world, CommitmentType::Move);
    let actions = context.committed_actions();
    assert_eq!(actions.len(), 1);
    assert_eq!(actions[0].0, npc);
    assert_eq!(actions[0].2, CommitmentType::Move);
    assert_eq!(actions[0].1, CardinalDirection::North);
    assert_eq!(
        context.commitment_grid().get_checked(Coordinate::new(4, 3)),
        Some((CardinalDirection::North, CommitmentType::Move))
    );
    assert!(!context.commitment_grid().is_committed(Coordinate::new(3, 4)));
}

#[test]
fn two_actors_never_claim_the_same_cell() {
    let mut world = World::new(GridSize::new(5, 5));
    world.add_entity(Coordinate::new(2, 0), PackedEntity::player());
    let first = world.add_entity(Coordinate::new(1, 2), PackedEntity::bumper());
    let second = world.add_entity(Coordinate::new(3, 2), PackedEntity::bumper());
    let mut context = PathfindingContext::new(world.size());
    context.update_player_coord(Coordinate::new(2, 0), &world);
    context.commit_action(first, &world, CommitmentType::Move);
    let claimed: Vec<Coordinate> = (0..5)
        .flat_map(|y| (0..5).map(move |x| Coordinate::new(x, y)))
        .filter(|c| context.commitment_grid().is_committed(*c))
        .collect();
    assert_eq!(claimed.len(), 1);
    let before = context.commitment_grid().get_checked(claimed[0]);
    context.commit_action(second, &world, CommitmentType::Cast);
    assert_eq!(context.commitment_grid().get_checked(claimed[0]), before);
    let claimed_after: Vec<Coordinate> = (0..5)
        .flat_map(|y| (0..5).map(move |x| Coordinate::new(x, y)))
        .filter(|c| context.commitment_grid().is_committed(*c))
        .collect();
    assert_eq!(claimed_after.len(), context.committed_actions().len());
}

#[test]
fn contested_cell_goes_to_the_first_actor() {
    // Both actors stand one step from (2, 1), the only cell next to the
    // player that either can enter first.
    let mut world = World::new(GridSize::new(5, 3));
    for x in 0..5 {
        if x != 2 {
            world.set_background(Coordinate::new(x, 0), BackgroundTile::IceWall);
        }
    }
    world.add_entity(Coordinate::new(2, 0), PackedEntity::player());
    // leave (2, 1) free and put the actors beside it
    let first = world.add_entity(Coordinate::new(1, 1), PackedEntity::bumper());
    let second = world.add_entity(Coordinate::new(3, 1), PackedEntity::bumper());
    let mut context = PathfindingContext::new(world.size());
    context.update_player_coord(Coordinate::new(2, 0), &world);
    context.commit_action(first, &world, CommitmentType::Move);
    context.commit_action(second, &world, CommitmentType::Move);
    let actions = context.committed_actions();
    assert_eq!(actions[0], (first, CardinalDirection::East, CommitmentType::Move));
    assert_eq!(
        context.commitment_grid().get_checked(Coordinate::new(2, 1)),
        Some((CardinalDirection::East, CommitmentType::Move))
    );
    for action in actions.iter().skip(1) {
        assert_eq!(action.0, second);
        assert_ne!(action.1, CardinalDirection::West);
    }
}

#[test]
fn attack_on_the_player_claims_nothing() {
    let mut world = World::new(GridSize::new(3, 1));
    world.add_entity(Coordinate::new(0, 0), PackedEntity::player());
    let npc = world.add_entity(Coordinate::new(1, 0), PackedEntity::bumper());
    let mut context = PathfindingContext::new(world.size());
    context.update_player_coord(Coordinate::new(0, 0), &world);
    context.commit_action(npc, &world, CommitmentType::Move);
    assert_eq!(
        context.committed_actions().to_vec(),
        vec![(npc, CardinalDirection::West, CommitmentType::Move)]
    );
    assert!(!context.commitment_grid().is_committed(Coordinate::new(0, 0)));
}

#[test]
fn update_player_coord_releases_claims() {
    let (world, _player, npc) = open_room();
    let mut context = PathfindingContext::new(world.size());
    context.update_player_coord(Coordinate::new(2, 2), &world);
    context.commit_action(npc, &world, CommitmentType::Heal(3));
    assert_eq!(context.committed_actions().len(), 1);
    context.clear_commitments();
    assert_eq!(context.committed_actions().len(), 1);
    assert!(!context.commitment_grid().is_committed(Coordinate::new(4, 3)));
    context.commit_action(npc, &world, CommitmentType::Move);
    context.update_player_coord(Coordinate::new(2, 2), &world);
    assert_eq!(context.committed_actions().len(), 0);
    assert!(!context.commitment_grid().is_committed(Coordinate::new(4, 3)));
}

#[test]
fn search_is_told_which_cells_are_solid() {
    let mut world = World::new(GridSize::new(5, 4));
    world.set_background(Coordinate::new(4, 0), BackgroundTile::IceWall);
    world.add_entity(Coordinate::new(1, 1), PackedEntity::bumper());
    let solid = Solid { world: &world };
    assert_eq!(solid.is_solid(coord_2d::Coord::new(4, 0)), Some(true));
    assert_eq!(solid.is_solid(coord_2d::Coord::new(0, 0)), Some(false));
    assert_eq!(solid.is_solid(coord_2d::Coord::new(1, 1)), Some(false));
    assert_eq!(solid.is_solid(coord_2d::Coord::new(4, 3)), Some(false));
    assert_eq!(solid.is_solid(coord_2d::Coord::new(5, 0)), None);
    assert_eq!(solid.is_solid(coord_2d::Coord::new(0, 4)), None);
    assert_eq!(solid.is_solid(coord_2d::Coord::new(-1, 0)), None);
}

#[test]
fn search_is_told_which_cells_are_closed() {
    let mut world = World::new(GridSize::new(5, 4));
    world.set_background(Coordinate::new(4, 0), BackgroundTile::IceWall);
    world.add_entity(Coordinate::new(1, 1), PackedEntity::bumper());
    world.add_entity(Coordinate::new(2, 2), PackedEntity::player());
    let mut commitment_grid = CommitmentGrid::new(GridSize::new(5, 4));
    commitment_grid.commit(Coordinate::new(3, 1), CardinalDirection::East, CommitmentType::Move);
    let closed = SolidOrOccupied { world: &world, commitment_grid: &commitment_grid };
    assert_eq!(closed.is_solid(coord_2d::Coord::new(4, 0)), Some(true));
    assert_eq!(closed.is_solid(coord_2d::Coord::new(1, 1)), Some(true));
    assert_eq!(closed.is_solid(coord_2d::Coord::new(3, 1)), Some(true));
    assert_eq!(closed.is_solid(coord_2d::Coord::new(1, 3)), Some(false));
    assert_eq!(closed.is_solid(coord_2d::Coord::new(2, 2)), Some(false));
    assert_eq!(closed.is_solid(coord_2d::Coord::new(0, 0)), Some(false));
    assert_eq!(closed.is_solid(coord_2d::Coord::new(5, 0)), None);
    assert_eq!(closed.is_solid(coord_2d::Coord::new(0, -1)), None);
}

#[test]
fn first_step_of_a_path() {
    assert_eq!(first_step_of(&None), None);
    assert_eq!(first_step_of(&Some(vec![])), None);
    assert_eq!(first_step_of(&Some(vec![0])), Some(CardinalDirection::North));
    assert_eq!(first_step_of(&Some(vec![2, 0, 0])), Some(CardinalDirection::East));
    assert_eq!(first_step_of(&Some(vec![4, 6])), Some(CardinalDirection::South));
    assert_eq!(first_step_of(&Some(vec![6, 4])), Some(CardinalDirection::West));
    assert_eq!(first_step_of(&Some(vec![1, 0])), None);
    assert_eq!(first_step_of(&Some(vec![3])), None);
    assert_eq!(first_step_of(&Some(vec![5])), None);
    assert_eq!(first_step_of(&Some(vec![7])), None);
    assert_eq!(first_step_of(&Some(vec![8])), None);
}

#[test]
fn a_step_is_committed_and_its_cell_claimed() {
    let (world, _, npc) = open_room();
    let mut context = PathfindingContext::new(GridSize::new(5, 5));
    context.update_player_coord(Coordinate::new(2, 2), &world);
    let from = Coordinate::new(4, 4);
    context.commit_step(npc, from, Some(CardinalDirection::West), CommitmentType::Cast);
    assert_eq!(
        context.committed_actions(),
        &vec![(npc, CardinalDirection::West, CommitmentType::Cast)]
    );
    let grid = context.commitment_grid();
    assert_eq!(
        grid.get_checked(Coordinate::new(3, 4)),
        Some((CardinalDirection::West, CommitmentType::Cast))
    );
    assert!(!grid.is_committed(Coordinate::new(4, 4)));
    assert!(!grid.is_committed(Coordinate::new(4, 3)));
}

#[test]
fn no_step_commits_nothing() {
    let (world, _, npc) = open_room();
    let mut context = PathfindingContext::new(GridSize::new(5, 5));
    context.update_player_coord(Coordinate::new(2, 2), &world);
    context.commit_step(npc, Coordinate::new(4, 4), None, CommitmentType::Move);
    assert!(context.committed_actions().is_empty());
    for y in 0..5 {
        for x in 0..5 {
            assert!(!context.commitment_grid().is_committed(Coordinate::new(x, y)));
        }
    }
}

#[test]
fn a_step_onto_the_player_claims_nothing() {
    let (world, _, npc) = open_room();
    let mut context = PathfindingContext::new(GridSize::new(5, 5));
    context.update_player_coord(Coordinate::new(2, 2), &world);
    context.commit_step(npc, Coordinate::new(2, 3), Some(CardinalDirection::North),
        CommitmentType::Move);
    assert_eq!(
        context.committed_actions(),
        &vec![(npc, CardinalDirection::North, CommitmentType::Move)]
    );
    assert!(!context.commitment_grid().is_committed(Coordinate::new(2, 2)));
}

#[test]
fn a_step_out_of_the_grid_claims_nothing() {
    let (world, _, npc) = open_room();
    let mut context = PathfindingContext::new(GridSize::new(5, 5));
    context.update_player_coord(Coordinate::new(2, 2), &world);
    context.commit_step(npc, Coordinate::new(4, 4), Some(CardinalDirection::East),
        CommitmentType::Move);
    assert_eq!(context.committed_actions().len(), 1);
    for y in 0..5 {
        for x in 0..5 {
            assert!(!context.commitment_grid().is_committed(Coordinate::new(x, y)));
        }
    }
}
