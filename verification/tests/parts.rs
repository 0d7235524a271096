use gws::cards::{append_cards, position_of_card, push_copies, Card};
use gws::colour::Rgb24;
use gws::frontend::{Frontend, Glutin, Unix, Wasm};
use gws::geometry::{CardinalDirection, Coordinate, Direction, DirectionBitmap, GridSize};
use gws::terrain::{wfc_forrest, TerrainDescription};
use gws::ui::{card_offset, locked_card_view, locked_label};
use gws::world::Instruction;
use gws::entity::BackgroundTile;

#[test]
fn front_ends() {
    assert!(Glutin::can_quit() && Glutin::can_save_from_menu());
    assert!(Unix::can_quit() && Unix::can_save_from_menu());
    assert!(!Wasm::can_quit() && !Wasm::can_save_from_menu());
}

#[test]
fn locked_card() {
    let view = locked_card_view();
    assert_eq!(view.inner_size, GridSize::new(7, 9));
    assert_eq!(view.foreground, Rgb24::grey(128));
    assert_eq!(view.label_offset, Coordinate::new(0, 4));
    assert_eq!(locked_label(), "Locked");
    assert_eq!(card_offset(0), Coordinate::new(0, 1));
    assert_eq!(card_offset(7), Coordinate::new(63, 1));
}

#[test]
fn coordinates() {
    let a = Coordinate::new(-2, 3);
    let b = Coordinate::new(4, -1);
    assert_eq!(a.manhattan_distance(b), 10);
    assert_eq!(a.distance_squared(b), 52);
    assert_eq!(a.line_steps(b), 7);
    assert_eq!(a.line_steps(a), 1);
    assert_eq!(a.step(CardinalDirection::North), Some(Coordinate::new(-2, 2)));
    assert_eq!(a.step(CardinalDirection::East), Some(Coordinate::new(-1, 3)));
    assert_eq!(a.step(CardinalDirection::South), Some(Coordinate::new(-2, 4)));
    assert_eq!(a.step(CardinalDirection::West), Some(Coordinate::new(-3, 3)));
    assert_eq!(Coordinate::new(i32::MAX, 0).step(CardinalDirection::East), None);
    assert_eq!(Coordinate::new(0, i32::MIN).step(CardinalDirection::North), None);
    let far = Coordinate::new(i32::MIN, i32::MIN).distance_squared(Coordinate::new(i32::MAX,
        i32::MAX));
    assert_eq!(far, 2 * (u32::MAX as u128) * (u32::MAX as u128));
}

#[test]
fn sizes_and_indices() {
    let size = GridSize::new(4, 3);
    assert!(size.is_valid());
    assert!(!GridSize::new(16385, 1).is_valid());
    assert!(size.contains(Coordinate::new(3, 2)));
    assert!(!size.contains(Coordinate::new(4, 2)));
    assert!(!size.contains(Coordinate::new(0, -1)));
    assert_eq!(size.index(Coordinate::new(0, 0)), Some(0));
    assert_eq!(size.index(Coordinate::new(3, 2)), Some(11));
    assert_eq!(size.index(Coordinate::new(1, 2)), Some(9));
    assert_eq!(size.index(Coordinate::new(4, 0)), None);
}

#[test]
fn directions() {
    assert_eq!(CardinalDirection::North.opposite(), CardinalDirection::South);
    assert_eq!(CardinalDirection::West.direction(), Direction::West);
    assert_eq!(Direction::East.cardinal(), Some(CardinalDirection::East));
    assert_eq!(Direction::SouthWest.cardinal(), None);
    assert_eq!(Direction::NorthWest.bitmap(), DirectionBitmap::new(128));
    let some = Direction::North.bitmap().or(Direction::South.bitmap());
    assert!(some.has(Direction::South));
    assert!(!some.has(Direction::East));
    assert!(some.and(Direction::East.bitmap()).is_empty());
    assert_eq!(DirectionBitmap::all().and(some), some);
    assert!(DirectionBitmap::empty().is_empty());
}

#[test]
fn colours() {
    let c = Rgb24::new(200, 100, 0);
    assert_eq!(c.saturating_add(Rgb24::new(100, 100, 0)), Rgb24::new(255, 200, 0));
    assert_eq!(c.scaled(1, 0), c);
    assert_eq!(c.scaled(3, 2), Rgb24::new(255, 150, 0));
    assert_eq!(c.scaled(1, 3), Rgb24::new(66, 33, 0));
    assert_eq!(c.scaled(u32::MAX, u128::MAX), Rgb24::black());
    assert!(Rgb24::black().is_black());
    assert!(!c.is_black());
}

#[test]
fn terrain_descriptions() {
    let empty = wfc_forrest(GridSize::new(4, 4));
    assert!(empty.is_wf());
    assert_eq!(empty.player_coord, Coordinate::new(0, 0));
    assert_eq!(empty.instructions.len(), 0);
    let outside = Instruction::SetBackground(Coordinate::new(4, 0), BackgroundTile::Ground);
    assert!(!TerrainDescription::new(Coordinate::new(0, 0), GridSize::new(4, 4),
        vec![outside]).is_wf());
    assert!(!wfc_forrest(GridSize::new(1, 20000)).is_wf());
}

#[test]
fn piles_of_cards() {
    let mut cards = vec![Card::Heal];
    push_copies(&mut cards, Card::Clog, 2);
    append_cards(&mut cards, &vec![Card::Heal, Card::Drain]);
    assert_eq!(cards, vec![Card::Heal, Card::Clog, Card::Clog, Card::Heal, Card::Drain]);
    assert_eq!(position_of_card(&cards, Card::Heal), Some(0));
    assert_eq!(position_of_card(&cards, Card::Clog), Some(1));
    assert_eq!(position_of_card(&cards, Card::Drain), Some(4));
    assert_eq!(position_of_card(&cards, Card::Blink), None);
}

#[test]
fn sizes_that_can_be_built() {
    assert!(GridSize::new(0, 0).is_buildable());
    assert!(GridSize::new(3, 0).is_buildable());
    assert!(GridSize::new(1, 1).is_buildable());
    assert!(GridSize::new(16384, 16384).is_buildable());
    assert!(!GridSize::new(0, 1).is_buildable());
    assert!(!GridSize::new(0, 16384).is_buildable());
    assert!(!GridSize::new(16385, 1).is_buildable());
    assert!(GridSize::new(0, 1).is_valid());
}

#[test]
fn no_level_has_rows_without_columns() {
    assert!(!wfc_forrest(GridSize::new(0, 1)).is_wf());
    assert!(wfc_forrest(GridSize::new(1, 0)).is_wf());
    assert!(wfc_forrest(GridSize::new(0, 0)).is_wf());
}
