use gws::entity::{BackgroundTile, ForegroundTile, PackedEntity};
use gws::game::Gws;
use gws::geometry::{Coordinate, GridSize};
use gws::terrain::from_str;
use gws::world::Instruction;
use rand::SeedableRng;

#[test]
fn text_describes_a_level() {
    let terrain = from_str("#####\n#@.d#\n\n#,&1#\n#####").unwrap();
    assert!(terrain.is_wf());
    assert_eq!(terrain.size, GridSize::new(5, 4));
    assert_eq!(terrain.player_coord, Coordinate::new(1, 1));
    assert_eq!(terrain.instructions.len(), 23);
    assert_eq!(
        terrain.instructions[0],
        Instruction::SetBackground(Coordinate::new(0, 0), BackgroundTile::IceWall)
    );
    assert_eq!(
        terrain.instructions[6],
        Instruction::SetBackground(Coordinate::new(1, 1), BackgroundTile::Floor)
    );
    assert_eq!(
        terrain.instructions[8],
        Instruction::SetBackground(Coordinate::new(3, 1), BackgroundTile::Floor)
    );
    assert_eq!(
        terrain.instructions[9],
        Instruction::AddEntity(Coordinate::new(3, 1), PackedEntity::bumper())
    );
    assert_eq!(
        terrain.instructions[12],
        Instruction::SetBackground(Coordinate::new(1, 2), BackgroundTile::Ground)
    );
    match terrain.instructions[14] {
        Instruction::AddEntity(coord, tree) => {
            assert_eq!(coord, Coordinate::new(2, 2));
            assert_eq!(tree.foreground_tile, Some(ForegroundTile::Tree));
        }
        _ => panic!("a tree was expected"),
    }
    match terrain.instructions[16] {
        Instruction::AddEntity(coord, lamp) => {
            assert_eq!(coord, Coordinate::new(3, 2));
            let light = lamp.light.unwrap();
            assert_eq!((light.colour.r, light.colour.g, light.colour.b), (255, 10, 10));
            assert_eq!(light.range_squared, 90);
        }
        _ => panic!("a lamp was expected"),
    }
}

#[test]
fn text_that_describes_nothing() {
    assert!(from_str("").is_none());
    assert!(from_str("\n\n").is_none());
    assert!(from_str("...\n...").is_none());
    assert!(from_str(".@.\n..").is_none());
    assert!(from_str(".@.\n..x").is_none());
    assert!(from_str(".@.\n.. ").is_none());
    assert!(from_str("@").is_some());
    assert!(from_str("@\n").is_some());
    assert!(from_str("\n@").is_some());
    assert!(from_str("@@").map(|t| t.player_coord) == Some(Coordinate::new(1, 0)));
}

#[test]
fn level_from_text() {
    let terrain = from_str("#######\n#@...c#\n#######").unwrap();
    let mut rng = rand_isaac::IsaacRng::seed_from_u64(3);
    let game = Gws::new(terrain, None, &mut rng);
    assert_eq!(game.player().coord(), Coordinate::new(1, 1));
    assert_eq!(game.world().npc_ids(), vec![0]);
    assert_eq!(game.pathfinding().distance_to_player(Coordinate::new(5, 1)), Some(4));
    assert_eq!(game.pathfinding().distance_to_player(Coordinate::new(0, 0)), None);
    assert_eq!(game.pathfinding().committed_actions().len(), 1);
    assert!(game.visible_area().is_visible(Coordinate::new(6, 1), game.visible_area().state()));
    assert!(game.world().cell(Coordinate::new(0, 0)).unwrap().is_solid());
}
