//! End-to-end layout scenarios through the frame driver.

use scene_layout::{
    BorderGrid, BorderSize, Column, FrameOutput, Handle, Length, Location, Node, NodeKind, Offset,
    Origin, Padding, Quadrants, RealLocation, RealSize, Row, Scene, SceneError, ScreenSize, Size,
    Sprite, Spritesheet, SpritesheetSettings, Stack, Texture, TextureData, TextureKind, Tile, Wrap,
    RepeatTile, SCALE,
};

fn plain_location(size: Size) -> Location {
    Location {
        offset: Offset { x: Length::Zero, y: Length::Zero },
        size,
        padding: Padding::all(Length::Zero),
        origin: Origin { x: 0, y: 0 },
        z_index: 0,
    }
}

fn sprite_node(sheet: Spritesheet, width: Length, height: Length) -> Node {
    Node::new(NodeKind::Sprite(Sprite {
        spritesheet: Some(sheet),
        tile: Tile::zero(),
        repeat_tile: RepeatTile::none(),
        palette: 0,
    }))
    .with_location(plain_location(Size { width, height }))
}

fn scene_with_sheet(root: Node) -> (Scene, Spritesheet) {
    let texture = Texture::new(Handle::new(1));
    let sheet = Spritesheet::new(Handle::new(2));
    let mut scene = Scene::new(root);
    scene.load_texture(&texture, TextureData { width: 64, height: 64, kind: TextureKind::Rgba });
    scene
        .load_spritesheet(&sheet, SpritesheetSettings { texture, palette: None })
        .expect("sheet loads");
    (scene, sheet)
}

fn relayout(scene: &mut Scene, screen: &ScreenSize) -> Vec<scene_layout::Instance> {
    match scene.render_frame(screen).expect("frame runs") {
        FrameOutput::Relayout(v) => v,
        _ => panic!("expected a full layout"),
    }
}

#[test]
fn row_places_fixed_width_children() {
    let screen = ScreenSize::new(1000, 1000);
    let sheet = Spritesheet::new(Handle::new(2));
    let children = vec![
        sprite_node(sheet, Length::ParentWidth(SCALE / 5), Length::ParentHeight(SCALE)),
        sprite_node(sheet, Length::ParentWidth(3 * SCALE / 10), Length::ParentHeight(SCALE)),
        sprite_node(sheet, Length::ParentWidth(SCALE / 10), Length::ParentHeight(SCALE)),
    ];
    let root = Node::new(NodeKind::Row(Row { children }));
    let (mut scene, _) = scene_with_sheet(root);
    let v = relayout(&mut scene, &screen);
    assert_eq!(v.len(), 3);
    assert_eq!(v[0].location.position.x, 0);
    assert_eq!(v[1].location.position.x, SCALE / 5);
    assert_eq!(v[2].location.position.x, SCALE / 2);
    for inst in &v {
        assert_eq!(inst.location.size.height, SCALE);
        assert_eq!(inst.location.position.y, 0);
    }
}

#[test]
fn column_stretch_child_takes_leftover_space() {
    let screen = ScreenSize::new(800, 600);
    let sheet = Spritesheet::new(Handle::new(2));
    let stretch_child = sprite_node(sheet, Length::ParentWidth(SCALE), Length::ParentHeight(SCALE))
        .with_stretch(true);
    let fixed_child =
        sprite_node(sheet, Length::ParentWidth(SCALE), Length::ParentHeight(SCALE / 4));
    let root = Node::new(NodeKind::Column(Column { children: vec![stretch_child, fixed_child] }));
    let (mut scene, _) = scene_with_sheet(root);
    let v = relayout(&mut scene, &screen);
    assert_eq!(v.len(), 2);
    assert_eq!(v[0].location.position.y, 0);
    assert_eq!(v[0].location.size.height, 3 * SCALE / 4);
    assert_eq!(v[1].location.position.y, 3 * SCALE / 4);
}

#[test]
fn row_stretch_children_fill_interior_exactly() {
    let screen = ScreenSize::new(1000, 1000);
    let sheet = Spritesheet::new(Handle::new(2));
    let children = vec![
        sprite_node(sheet, Length::Px(250), Length::ParentHeight(SCALE)),
        sprite_node(sheet, Length::ParentWidth(SCALE), Length::ParentHeight(SCALE))
            .with_stretch(true),
        sprite_node(sheet, Length::ParentWidth(SCALE), Length::ParentHeight(SCALE))
            .with_stretch(true),
        sprite_node(sheet, Length::ParentWidth(SCALE), Length::ParentHeight(SCALE))
            .with_stretch(true),
    ];
    let root = Node::new(NodeKind::Row(Row { children }));
    let (mut scene, _) = scene_with_sheet(root);
    let v = relayout(&mut scene, &screen);
    assert_eq!(v.len(), 4);
    let total: i64 = v.iter().map(|i| i.location.size.width).sum();
    assert_eq!(total, SCALE);
    let leftover = SCALE - SCALE / 4;
    assert_eq!(v[1].location.size.width, leftover / 3);
    assert_eq!(v[2].location.size.width, leftover / 3);
    assert_eq!(v[3].location.size.width, leftover / 3 + leftover % 3);
}

#[test]
fn border_grid_center_gets_the_remainder() {
    let screen = ScreenSize::new(1000, 1000);
    let sheet = Spritesheet::new(Handle::new(2));
    let full = Size { width: Length::ParentWidth(SCALE), height: Length::ParentHeight(SCALE) };
    let quadrant = || sprite_node(sheet, full.width, full.height);
    let quadrants = Quadrants {
        up_left: quadrant(),
        up: quadrant(),
        up_right: quadrant(),
        left: quadrant(),
        center: quadrant(),
        right: quadrant(),
        down_left: quadrant(),
        down: quadrant(),
        down_right: quadrant(),
    };
    let tenth = SCALE / 10;
    let root = Node::new(NodeKind::Border(Box::new(BorderGrid {
        quadrants: Some(quadrants),
        border_size: Some(BorderSize::all(Length::ParentWidth(tenth))),
    })));
    let (mut scene, _) = scene_with_sheet(root);
    let v = relayout(&mut scene, &screen);
    assert_eq!(v.len(), 9);
    let center = &v[4];
    assert_eq!(center.location.position.x, tenth);
    assert_eq!(center.location.position.y, tenth);
    assert_eq!(center.location.size.width, 8 * SCALE / 10);
    assert_eq!(center.location.size.height, 8 * SCALE / 10);
}

#[test]
fn wrap_rows_never_run_past_the_width() {
    let screen = ScreenSize::new(1000, 1000);
    let sheet = Spritesheet::new(Handle::new(2));
    let piece = |w: i64| sprite_node(sheet, Length::ScreenWidth(w), Length::ScreenHeight(SCALE / 10));
    let children = vec![piece(2 * SCALE / 5), piece(2 * SCALE / 5), piece(2 * SCALE / 5)];
    let root = Node::new(NodeKind::Wrap(Wrap { children }));
    let (mut scene, _) = scene_with_sheet(root);
    let v = relayout(&mut scene, &screen);
    assert_eq!(v.len(), 3);
    assert_eq!(v[0].location.position.y, 0);
    assert_eq!(v[1].location.position.y, 0);
    assert_eq!(v[1].location.position.x, 2 * SCALE / 5);
    assert_eq!(v[2].location.position.y, SCALE / 10);
    assert_eq!(v[2].location.position.x, 0);
}

#[test]
fn wrap_gives_an_oversized_child_its_own_row() {
    let screen = ScreenSize::new(1000, 1000);
    let sheet = Spritesheet::new(Handle::new(2));
    let children = vec![
        sprite_node(sheet, Length::ScreenWidth(SCALE / 2), Length::ScreenHeight(SCALE / 10)),
        sprite_node(sheet, Length::ScreenWidth(3 * SCALE / 2), Length::ScreenHeight(SCALE / 10)),
        sprite_node(sheet, Length::ScreenWidth(SCALE / 2), Length::ScreenHeight(SCALE / 10)),
    ];
    let root = Node::new(NodeKind::Wrap(Wrap { children }));
    let (mut scene, _) = scene_with_sheet(root);
    let v = relayout(&mut scene, &screen);
    assert_eq!(v.len(), 3);
    assert_eq!(v[1].location.position.x, 0);
    assert_eq!(v[1].location.position.y, SCALE / 10);
    assert_eq!(v[1].location.size.width, 3 * SCALE / 2);
    assert_eq!(v[2].location.position.y, 2 * SCALE / 10);
}

#[test]
fn stack_minimum_is_componentwise_maximum() {
    let screen = ScreenSize::new(1000, 1000);
    let sheet = Spritesheet::new(Handle::new(2));
    let a = sprite_node(sheet, Length::Px(200), Length::Px(100));
    let b = sprite_node(sheet, Length::Px(100), Length::Px(300));
    let hidden =
        sprite_node(sheet, Length::Px(900), Length::Px(900)).with_visible(false);
    let stack = Node::new(NodeKind::Stack(Stack { children: vec![a, b, hidden] }))
        .with_location(plain_location(Size {
            width: Length::SmallestWidth(SCALE),
            height: Length::SmallestHeight(SCALE),
        }));
    let m = scene_layout::measure(&stack, &screen);
    assert_eq!(m.size, RealSize { width: 200_000, height: 300_000 });
}

#[test]
fn padding_never_makes_a_size_negative() {
    let screen = ScreenSize::new(1000, 1000);
    let loc = Location {
        offset: Offset { x: Length::Zero, y: Length::Zero },
        size: Size { width: Length::ParentWidth(SCALE / 2), height: Length::ParentHeight(SCALE / 2) },
        padding: Padding::all(Length::Px(800)),
        origin: Origin { x: 0, y: 0 },
        z_index: 0,
    };
    let parent = RealLocation::full();
    let placed = scene_layout::place(&loc, &parent, &RealSize::zero(), &screen);
    assert_eq!(placed.size.width, 0);
    assert_eq!(placed.size.height, 0);
}

#[test]
fn pixel_lengths_resolve_linearly_and_ignore_the_parent() {
    let screen = ScreenSize::new(1000, 500);
    let axis = scene_layout::Axis::Horizontal;
    let a = scene_layout::resolve(Length::Px(20), axis, 123, 456, 78, 90, &screen);
    let b = scene_layout::resolve(Length::Px(30), axis, 999_999, 0, 0, 1, &screen);
    let c = scene_layout::resolve(Length::Px(50), axis, 0, 0, 0, 0, &screen);
    assert_eq!(a, 20_000);
    assert_eq!(b, 30_000);
    assert_eq!(c, a + b);
}

#[test]
fn configuration_errors_abort_the_frame() {
    let screen = ScreenSize::new(100, 100);
    let mut scene = Scene::new(Node::new(NodeKind::Grid(scene_layout::Grid::new())));
    match scene.render_frame(&screen) {
        Err(e) => assert_eq!(e, SceneError::MissingGridSize),
        Ok(_) => panic!("a grid without a cell size must be rejected"),
    }
}

#[test]
fn border_cycle_is_rejected() {
    let screen = ScreenSize::new(100, 100);
    let sheet = Spritesheet::new(Handle::new(2));
    let q = || sprite_node(sheet, Length::Px(1), Length::Px(1));
    let quadrants = Quadrants {
        up_left: q(),
        up: q(),
        up_right: q(),
        left: q(),
        center: q(),
        right: q(),
        down_left: q(),
        down: q(),
        down_right: q(),
    };
    let root = Node::new(NodeKind::Border(Box::new(BorderGrid {
        quadrants: Some(quadrants),
        border_size: Some(BorderSize {
            up: Length::SmallestWidth(SCALE),
            down: Length::Zero,
            left: Length::SmallestHeight(SCALE),
            right: Length::Zero,
        }),
    })));
    let (mut scene, _) = scene_with_sheet(root);
    match scene.render_frame(&screen) {
        Err(e) => assert_eq!(e, SceneError::BorderCycle),
        Ok(_) => panic!("a cross-axis border dependency must be rejected"),
    }
}

#[test]
fn sprite_without_sheet_reference_is_rejected() {
    let screen = ScreenSize::new(100, 100);
    let mut scene = Scene::new(Node::new(NodeKind::Sprite(Sprite::new())));
    match scene.render_frame(&screen) {
        Err(e) => assert_eq!(e, SceneError::MissingSpritesheet),
        Ok(_) => panic!("a sprite without a sheet must be rejected"),
    }
}

#[test]
fn missing_sheet_asset_is_a_quiet_no_op() {
    let screen = ScreenSize::new(100, 100);
    let ghost_sheet = Spritesheet::new(Handle::new(77));
    let root = Node::new(NodeKind::Sprite(Sprite {
        spritesheet: Some(ghost_sheet),
        tile: Tile::zero(),
        repeat_tile: RepeatTile::none(),
        palette: 0,
    }));
    let mut scene = Scene::new(root);
    let v = relayout(&mut scene, &screen);
    assert_eq!(v.len(), 0);
}

#[test]
fn layout_is_idempotent_between_mutations() {
    let screen = ScreenSize::new(1000, 1000);
    let sheet = Spritesheet::new(Handle::new(2));
    let children = vec![
        sprite_node(sheet, Length::ParentWidth(SCALE / 5), Length::ParentHeight(SCALE)),
        sprite_node(sheet, Length::Zero, Length::ParentHeight(SCALE)).with_stretch(true),
    ];
    let root = Node::new(NodeKind::Row(Row { children }));
    let (mut scene, _) = scene_with_sheet(root);
    let v1 = relayout(&mut scene, &screen);
    // Force a second full layout with no state change in between.
    let loc = plain_location(Size {
        width: Length::ParentWidth(SCALE),
        height: Length::ParentHeight(SCALE),
    });
    let root_path: Vec<usize> = Vec::new();
    scene.update(&root_path, scene_layout::Update::Place(loc)).expect("root update");
    let v2 = relayout(&mut scene, &screen);
    assert_eq!(v1, v2);
}
