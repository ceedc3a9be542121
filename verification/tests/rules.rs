//! The pure game-side tables and tile helpers.

use scene_layout::{
    BorderTiles, BuildingClass, ExplosionAnimation, Handle, Nation, Spritesheet, Tile,
    UnitAppearance, SCALE,
};

#[test]
fn tiles_mirror_by_swapping_edges() {
    let t = Tile { start_x: 1, start_y: 2, end_x: 9, end_y: 12 };
    let mx = t.mirror_x();
    assert_eq!(mx, Tile { start_x: 9, start_y: 2, end_x: 1, end_y: 12 });
    let my = t.mirror_y();
    assert_eq!(my, Tile { start_x: 1, start_y: 12, end_x: 9, end_y: 2 });
    assert_eq!(mx.mirror_x(), t);
    assert_eq!(my.mirror_y(), t);
}

#[test]
fn missile_silos_stay_neutral() {
    assert!(BuildingClass::City.can_have_nation());
    assert!(BuildingClass::HQ3.can_have_nation());
    assert!(!BuildingClass::MissileSilo.can_have_nation());
    assert!(!BuildingClass::MissileSiloEmpty.can_have_nation());
}

#[test]
fn building_tiles_follow_the_sheet_layout() {
    assert_eq!(BuildingClass::City.tile_y(32), 160);
    assert_eq!(BuildingClass::MissileSiloEmpty.tile_y(32), 384);
    assert_eq!(scene_layout::game::building_tile_x(true, true, true, 0, 16), 16);
    assert_eq!(scene_layout::game::building_tile_x(false, true, true, 3, 16), 80);
    assert_eq!(scene_layout::game::building_tile_x(false, false, true, 2, 16), 0);
}

#[test]
fn nations_map_to_palette_rows() {
    assert_eq!(Nation::OrangeStar.palette_index(), 0);
    assert_eq!(Nation::BlackHole.palette_index(), 4);
}

#[test]
fn unit_appearance_picks_the_tile_size() {
    assert_eq!(UnitAppearance::DualStrikeSmall.unit_tile_size(), 32);
    assert_eq!(UnitAppearance::DualStrikeBig.unit_tile_size(), 64);
}

#[test]
fn explosions_step_through_their_frames() {
    let info = ExplosionAnimation::Land.info();
    assert_eq!(info.frames, 9);
    let start = scene_layout::game::explosion_tile(&info, 0);
    assert_eq!(start.start_x, 0);
    assert_eq!(start.end_x, 32);
    let mid = scene_layout::game::explosion_tile(&info, SCALE / 2);
    assert_eq!(mid.start_x, 4 * 32);
    let done = scene_layout::game::explosion_tile(&info, SCALE);
    assert_eq!(done.start_x, 8 * 32);
    let mega = ExplosionAnimation::Mega.info();
    assert_eq!(mega.tile_y, 96);
    assert_eq!(mega.width, 7 * SCALE);
}

#[test]
fn border_tiles_cut_a_three_by_three_block() {
    let tiles = BorderTiles::from_grid(100, 200, 8, 16);
    assert_eq!(tiles.up_left, Tile { start_x: 100, start_y: 200, end_x: 108, end_y: 216 });
    assert_eq!(tiles.center, Tile { start_x: 108, start_y: 216, end_x: 116, end_y: 232 });
    assert_eq!(tiles.down_right, Tile { start_x: 116, start_y: 232, end_x: 124, end_y: 248 });
}

#[test]
fn sprite_border_assembles_a_border_grid() {
    let sheet = Spritesheet::new(Handle::new(4));
    let tiles = BorderTiles::from_grid(0, 0, 8, 8);
    let border = scene_layout::SpriteBorder::build(
        sheet,
        scene_layout::BorderSize::all(scene_layout::Length::Px(4)),
        &tiles,
        scene_layout::Node::new(scene_layout::NodeKind::Stack(scene_layout::Stack::new())),
    );
    match border.kind {
        scene_layout::NodeKind::Border(b) => {
            assert!(b.quadrants.is_some());
            assert!(b.border_size.is_some());
        },
        _ => panic!("the sprite border is a border grid"),
    }
}
