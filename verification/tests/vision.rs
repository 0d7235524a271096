use gws::colour::Rgb24;
use gws::entity::{BackgroundTile, Light, PackedEntity, PackedLight, Rational};
use gws::geometry::{Coordinate, DirectionBitmap, GridSize};
use gws::vision::{VisibileArea, VisibleCell, WorldOpacity};
use shadowcast::InputGrid;
use gws::world::World;

#[test]
fn player_sees_own_cell() {
    let size = GridSize::new(5, 5);
    let world = World::new(size);
    let mut area = VisibileArea::new(size);
    let before = area.state();
    area.update(Coordinate::new(2, 2), &world);
    let state = area.state();
    assert_eq!(state.count, before.count + 1);
    assert!(area.is_visible(Coordinate::new(2, 2), state));
    assert!(area.is_visible(Coordinate::new(0, 0), state));
    assert!(!area.is_visible(Coordinate::new(2, 2), before));
    assert!(area.is_discovered(Coordinate::new(4, 4)));
}

#[test]
fn epoch_starts_at_one_and_grows_by_one() {
    let size = GridSize::new(3, 3);
    let world = World::new(size);
    let mut area = VisibileArea::new(size);
    assert_eq!(area.state().count, 1);
    for tick in 0..4u64 {
        area.update(Coordinate::new(1, 1), &world);
        assert_eq!(area.state().count, 2 + tick);
    }
}

#[test]
fn old_snapshot_does_not_see_newly_seen_cells() {
    let size = GridSize::new(9, 1);
    let mut world = World::new(size);
    world.set_background(Coordinate::new(4, 0), BackgroundTile::IceWall);
    world.set_background(Coordinate::new(5, 0), BackgroundTile::IceWall);
    let mut area = VisibileArea::new(size);
    area.update(Coordinate::new(0, 0), &world);
    let old = area.state();
    assert!(area.is_visible(Coordinate::new(3, 0), old));
    assert!(!area.is_visible(Coordinate::new(8, 0), old));
    area.update(Coordinate::new(7, 0), &world);
    assert!(!area.is_visible(Coordinate::new(8, 0), old));
    assert!(area.is_visible(Coordinate::new(8, 0), area.state()));
    assert!(area.is_discovered(Coordinate::new(3, 0)));
    assert!(!area.is_visible(Coordinate::new(3, 0), area.state()));
}

#[test]
fn seen_cells_never_exceed_the_sweep() {
    let size = GridSize::new(7, 7);
    let mut world = World::new(size);
    world.set_background(Coordinate::new(3, 2), BackgroundTile::IceWall);
    world.set_background(Coordinate::new(3, 3), BackgroundTile::IceWall);
    let mut area = VisibileArea::new(size);
    for origin in [Coordinate::new(1, 3), Coordinate::new(5, 3), Coordinate::new(0, 0)] {
        let sweep = gws::vision::sweep_world(&world, origin, 60);
        area.update(origin, &world);
        let state = area.state();
        let mut seen = 0;
        for y in 0..7 {
            for x in 0..7 {
                if area.is_visible(Coordinate::new(x, y), state) {
                    seen += 1;
                }
            }
        }
        assert!(seen <= sweep.len());
        assert!(seen > 0);
    }
}

#[test]
fn sweep_from_outside_the_world_reports_nothing() {
    let world = World::new(GridSize::new(3, 3));
    assert_eq!(gws::vision::sweep_world(&world, Coordinate::new(3, 0), 60).len(), 0);
    let mut area = VisibileArea::new(GridSize::new(3, 3));
    area.update(Coordinate::new(-1, 0), &world);
    assert!(!area.is_discovered(Coordinate::new(0, 0)));
    assert_eq!(area.state().count, 2);
}

#[test]
fn unlit_cell_is_black() {
    let size = GridSize::new(5, 5);
    let world = World::new(size);
    let mut area = VisibileArea::new(size);
    area.update(Coordinate::new(2, 2), &world);
    let state = area.state();
    assert!(area.is_visible(Coordinate::new(1, 1), state));
    assert_eq!(area.light_colour(Coordinate::new(1, 1), state), Rgb24::black());
    assert_eq!(area.light_colour(Coordinate::new(9, 9), state), Rgb24::black());
}

#[test]
fn light_falls_off_with_squared_distance() {
    let size = GridSize::new(9, 1);
    let mut world = World::new(size);
    let mut glow = PackedEntity::glow(Rgb24::new(200, 100, 50));
    glow.light = Some(PackedLight::new(Rgb24::new(200, 100, 50), 100, Rational::new(1, 2)));
    world.add_entity(Coordinate::new(0, 0), glow);
    let mut area = VisibileArea::new(size);
    area.update(Coordinate::new(0, 0), &world);
    let state = area.state();
    assert_eq!(area.light_colour(Coordinate::new(0, 0), state), Rgb24::new(200, 100, 50));
    assert_eq!(area.light_colour(Coordinate::new(1, 0), state), Rgb24::new(100, 50, 25));
    assert_eq!(area.light_colour(Coordinate::new(2, 0), state), Rgb24::new(25, 12, 6));
    assert_eq!(area.light_colour(Coordinate::new(5, 0), state), Rgb24::new(4, 2, 1));
    let mut last = Rgb24::new(255, 255, 255);
    for x in 0..9 {
        let colour = area.light_colour(Coordinate::new(x, 0), state);
        assert!(colour.r <= last.r && colour.g <= last.g && colour.b <= last.b);
        last = colour;
    }
}

#[test]
fn formula_of_the_falloff() {
    let light = Light::new(Coordinate::new(0, 0), Rgb24::new(255, 10, 0), 30, Rational::new(3, 4));
    assert_eq!(light.diminish_at_coord(Coordinate::new(0, 0)), 1);
    assert_eq!(light.diminish_at_coord(Coordinate::new(2, 1)), 20);
    assert_eq!(light.colour_at_coord(Coordinate::new(0, 0)), Rgb24::new(255, 30, 0));
    assert_eq!(light.colour_at_coord(Coordinate::new(2, 1)), Rgb24::new(38, 1, 0));
}

#[test]
fn lights_add_up_and_stop_at_white() {
    let size = GridSize::new(3, 1);
    let mut world = World::new(size);
    world.add_entity(Coordinate::new(0, 0), PackedEntity::glow(Rgb24::new(200, 10, 0)));
    world.add_entity(Coordinate::new(0, 0), PackedEntity::glow(Rgb24::new(100, 20, 0)));
    let mut area = VisibileArea::new(size);
    area.update(Coordinate::new(0, 0), &world);
    let state = area.state();
    assert_eq!(area.light_colour(Coordinate::new(0, 0), state), Rgb24::new(255, 30, 0));
    area.update(Coordinate::new(0, 0), &world);
    assert_eq!(area.light_colour(Coordinate::new(0, 0), area.state()), Rgb24::new(255, 30, 0));
    assert_eq!(area.light_colour(Coordinate::new(0, 0), state), Rgb24::black());
}

#[test]
fn light_on_the_far_side_of_a_wall_does_not_count() {
    // A wall between the player and a light: the player sees the wall's
    // west face, the light reaches its east face.
    let size = GridSize::new(7, 1);
    let mut world = World::new(size);
    for x in [3] {
        world.set_background(Coordinate::new(x, 0), BackgroundTile::IceWall);
        world.add_entity(Coordinate::new(x, 0), PackedEntity::block());
    }
    world.add_entity(Coordinate::new(6, 0), PackedEntity::glow(Rgb24::new(250, 250, 250)));
    let light_sweep = gws::vision::sweep_world(&world, Coordinate::new(6, 0), 30);
    assert!(light_sweep.iter().any(|v| v.coord == Coordinate::new(3, 0)));
    let mut area = VisibileArea::new(size);
    area.update(Coordinate::new(0, 0), &world);
    let state = area.state();
    assert!(area.is_visible(Coordinate::new(3, 0), state));
    assert_eq!(area.light_colour(Coordinate::new(3, 0), state), Rgb24::black());
    assert!(!area.is_visible(Coordinate::new(4, 0), state));
    assert_eq!(area.light_colour(Coordinate::new(4, 0), state), Rgb24::black());
}

#[test]
fn light_sweep_is_gated_by_directions() {
    let size = GridSize::new(2, 1);
    let mut area = VisibileArea::new(size);
    let west = DirectionBitmap::new(64);
    let east = DirectionBitmap::new(4);
    let here = Coordinate::new(1, 0);
    area.apply_player_sweep(&vec![VisibleCell::new(here, west, 255)]);
    let light = Light::new(Coordinate::new(1, 0), Rgb24::new(9, 9, 9), 30, Rational::new(1, 1));
    area.apply_light_sweep(&light, &vec![VisibleCell::new(here, east, 255)]);
    assert_eq!(area.light_colour(here, area.state()), Rgb24::black());
    area.apply_light_sweep(&light, &vec![VisibleCell::new(here, west.or(east), 255)]);
    assert_eq!(area.light_colour(here, area.state()), Rgb24::new(9, 9, 9));
    area.apply_light_sweep(&light, &vec![VisibleCell::new(Coordinate::new(0, 0), west, 255)]);
    assert_eq!(area.light_colour(Coordinate::new(0, 0), area.state()), Rgb24::black());
    area.apply_light_sweep(&light, &vec![VisibleCell::new(Coordinate::new(5, 0), west, 255)]);
    assert_eq!(area.cell(here).map(|c| c.last_lit), Some(2));
}

#[test]
fn later_report_overwrites_directions() {
    let mut area = VisibileArea::new(GridSize::new(1, 1));
    let here = Coordinate::new(0, 0);
    area.apply_player_sweep(&vec![
        VisibleCell::new(here, DirectionBitmap::new(1), 255),
        VisibleCell::new(here, DirectionBitmap::new(16), 255),
    ]);
    assert_eq!(area.cell(here).map(|c| c.visible_directions), Some(DirectionBitmap::new(16)));
}

#[test]
fn origin_is_reported_first() {
    let mut world = World::new(GridSize::new(3, 3));
    world.add_entity(Coordinate::new(1, 1), PackedEntity::block());
    let sweep = gws::vision::sweep_world(&world, Coordinate::new(1, 1), 0);
    assert_eq!(sweep[0], VisibleCell::new(Coordinate::new(1, 1), DirectionBitmap::all(), 255));
    let mut area = VisibileArea::new(GridSize::new(3, 3));
    area.update(Coordinate::new(1, 1), &world);
    assert!(area.is_visible(Coordinate::new(1, 1), area.state()));
    assert_eq!(area.cell(Coordinate::new(1, 1)).map(|c| c.last_seen), Some(2));
    assert_eq!(area.epoch(), 2);
}

#[test]
fn sweep_is_told_the_size_of_the_world() {
    let world = World::new(GridSize::new(7, 3));
    assert_eq!(WorldOpacity.size(&world), coord_2d::Size::new(7, 3));
    let empty = World::new(GridSize::new(0, 0));
    assert_eq!(WorldOpacity.size(&empty), coord_2d::Size::new(0, 0));
}

#[test]
fn sweep_is_told_the_opacity_of_each_cell() {
    let mut world = World::new(GridSize::new(5, 4));
    world.set_background(Coordinate::new(4, 0), BackgroundTile::IceWall);
    assert_eq!(WorldOpacity.get_opacity(&world, coord_2d::Coord::new(4, 0)), 128);
    assert_eq!(WorldOpacity.get_opacity(&world, coord_2d::Coord::new(0, 0)), 0);
    assert_eq!(WorldOpacity.get_opacity(&world, coord_2d::Coord::new(3, 0)), 0);
    assert_eq!(WorldOpacity.get_opacity(&world, coord_2d::Coord::new(4, 3)), 0);
}

#[test]
fn sweep_is_told_that_all_is_opaque_outside_the_world() {
    let world = World::new(GridSize::new(5, 4));
    assert_eq!(WorldOpacity.get_opacity(&world, coord_2d::Coord::new(5, 0)), 255);
    assert_eq!(WorldOpacity.get_opacity(&world, coord_2d::Coord::new(0, 4)), 255);
    assert_eq!(WorldOpacity.get_opacity(&world, coord_2d::Coord::new(-1, 2)), 255);
    assert_eq!(WorldOpacity.get_opacity(&world, coord_2d::Coord::new(2, -1)), 255);
}
