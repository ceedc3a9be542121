//! Dirty tracking, the render-only path, the registry, and text layout.

use scene_layout::{
    BitmapFont, BitmapFontSettings, BitmapFontSupported, BitmapText, CharSize, ColorRgb,
    FrameOutput, Handle, Handles, Length, Node, NodeKind, RepeatTile, Scene, SceneError,
    ScreenSize, Sprite, Spritesheet, SpritesheetSettings, Texture, TextureData, TextureKind, Tile,
    Update, SCALE,
};

fn sprite_scene() -> (Scene, ScreenSize) {
    let texture = Texture::new(Handle::new(1));
    let sheet = Spritesheet::new(Handle::new(2));
    let root = Node::new(NodeKind::Sprite(Sprite {
        spritesheet: Some(sheet),
        tile: Tile { start_x: 0, start_y: 0, end_x: 8, end_y: 8 },
        repeat_tile: RepeatTile::none(),
        palette: 0,
    }));
    let mut scene = Scene::new(root);
    scene.load_texture(&texture, TextureData { width: 64, height: 64, kind: TextureKind::Rgba });
    scene
        .load_spritesheet(&sheet, SpritesheetSettings { texture, palette: None })
        .expect("sheet loads");
    (scene, ScreenSize::new(640, 480))
}

#[test]
fn render_only_change_skips_the_layout_pass() {
    let (mut scene, screen) = sprite_scene();
    let first = scene.render_frame(&screen).expect("first frame");
    let full = match first {
        FrameOutput::Relayout(v) => v,
        _ => panic!("first frame owes a full layout"),
    };
    assert_eq!(full.len(), 1);
    let root_path: Vec<usize> = Vec::new();
    let new_tile = Tile { start_x: 8, start_y: 0, end_x: 16, end_y: 8 };
    scene.update(&root_path, Update::SpriteTile(new_tile)).expect("tile update");
    match scene.render_frame(&screen).expect("second frame") {
        FrameOutput::Rerender(v) => {
            assert_eq!(v.len(), full.len());
            assert_eq!(v[0].tile, new_tile);
            assert_eq!(v[0].location, full[0].location);
        },
        _ => panic!("a tile change must take the render-only path"),
    }
}

#[test]
fn clean_scene_does_nothing() {
    let (mut scene, screen) = sprite_scene();
    scene.render_frame(&screen).expect("first frame");
    match scene.render_frame(&screen).expect("second frame") {
        FrameOutput::Idle => {},
        _ => panic!("an unchanged scene owes nothing"),
    }
}

#[test]
fn geometry_change_forces_a_full_layout() {
    let (mut scene, screen) = sprite_scene();
    scene.render_frame(&screen).expect("first frame");
    let root_path: Vec<usize> = Vec::new();
    scene.update(&root_path, Update::Visible(true)).expect("visibility update");
    match scene.render_frame(&screen).expect("second frame") {
        FrameOutput::Relayout(_) => {},
        _ => panic!("a geometry change must re-run layout"),
    }
}

#[test]
fn bad_update_paths_are_reported() {
    let (mut scene, _) = sprite_scene();
    let deep: Vec<usize> = vec![0];
    match scene.update(&deep, Update::Visible(false)) {
        Err(SceneError::NoSuchNode) => {},
        _ => panic!("a path past a leaf leads nowhere"),
    }
    let root_path: Vec<usize> = Vec::new();
    match scene.update(&root_path, Update::TextContent(String::from("x"))) {
        Err(SceneError::WrongNodeKind) => {},
        _ => panic!("text content does not fit a sprite"),
    }
}

#[test]
fn registry_insert_replaces_and_remove_forgets() {
    let mut reg: Handles<u32> = Handles::new();
    let a = Handle::new(10);
    let b = Handle::new(20);
    assert_eq!(reg.len(), 0);
    assert_eq!(reg.insert(&a, 5), None);
    assert_eq!(reg.insert(&b, 7), None);
    assert_eq!(reg.len(), 2);
    assert_eq!(reg.get(&a), Some(&5));
    assert_eq!(reg.insert(&a, 9), Some(5));
    assert_eq!(reg.len(), 2);
    assert_eq!(reg.get(&a), Some(&9));
    assert_eq!(reg.remove(&a), Some(9));
    assert_eq!(reg.remove(&a), None);
    assert_eq!(reg.get(&a), None);
    assert_eq!(reg.get(&b), Some(&7));
    assert_eq!(reg.len(), 1);
}

#[test]
fn asset_loading_checks_textures_and_formats() {
    let mut scene = Scene::new(Node::new(NodeKind::Stack(scene_layout::Stack::new())));
    let texture = Texture::new(Handle::new(1));
    let sheet = Spritesheet::new(Handle::new(2));
    match scene.load_spritesheet(&sheet, SpritesheetSettings { texture, palette: None }) {
        Err(SceneError::TextureNotLoaded) => {},
        _ => panic!("an unloaded texture cannot back a sheet"),
    }
    scene.load_texture(&texture, TextureData { width: 8, height: 8, kind: TextureKind::Grayscale });
    match scene.load_spritesheet(&sheet, SpritesheetSettings { texture, palette: None }) {
        Err(SceneError::WrongTextureFormat) => {},
        _ => panic!("a plain sheet needs a full-color texture"),
    }
    let font = BitmapFont::new(Handle::new(3));
    let supported = BitmapFontSupported { start: ' ', end: '~', replace: '?' };
    match scene.load_font(
        &font,
        BitmapFontSettings { texture, supported, columns: 0, tile_width: 8, tile_height: 16 },
    ) {
        Err(SceneError::FontGridEmpty) => {},
        _ => panic!("a font needs at least one glyph column"),
    }
    match scene.load_font(
        &font,
        BitmapFontSettings { texture, supported, columns: 16, tile_width: 8, tile_height: 16 },
    ) {
        Ok(()) => {},
        _ => panic!("a grayscale texture backs a font"),
    }
}

fn text_scene(text: &str) -> (Scene, ScreenSize) {
    let texture = Texture::new(Handle::new(1));
    let font = BitmapFont::new(Handle::new(3));
    let root = Node::new(NodeKind::Text(BitmapText {
        font: Some(font),
        char_size: Some(CharSize { width: Length::Px(8), height: Length::Px(16) }),
        text: String::from(text),
        text_color: ColorRgb { r: SCALE, g: 0, b: 0 },
        line_spacing: Length::Zero,
    }));
    let mut scene = Scene::new(root);
    scene.load_texture(
        &texture,
        TextureData { width: 256, height: 4096, kind: TextureKind::Grayscale },
    );
    scene
        .load_font(
            &font,
            BitmapFontSettings {
                texture,
                supported: BitmapFontSupported { start: '\0', end: '\u{10FFFF}', replace: '?' },
                columns: 16,
                tile_width: 8,
                tile_height: 16,
            },
        )
        .expect("font loads");
    (scene, ScreenSize::new(800, 800))
}

#[test]
fn glyphs_advance_by_displayed_width() {
    // 800 px wide screen: one pixel is 1250 subunits, so a character
    // column (8 px) is 10000 subunits wide.
    let (mut scene, screen) = text_scene("ab");
    let v = match scene.render_frame(&screen).expect("frame") {
        FrameOutput::Relayout(v) => v,
        _ => panic!("first frame owes a full layout"),
    };
    assert_eq!(v.len(), 2);
    assert_eq!(v[0].location.position.x, 0);
    // 'a' is one column wide: the next glyph starts one column over.
    assert_eq!(v[1].location.position.x, 10_000);
    // Glyph cells are always two columns wide.
    assert_eq!(v[0].location.size.width, 20_000);
    assert_eq!(v[0].color, ColorRgb { r: SCALE, g: 0, b: 0 });
    // 'a' is code point 97: row 6, column 1 of a 16-column grid of
    // double-width 8-pixel tiles.
    assert_eq!(v[0].tile.start_x, 16);
    assert_eq!(v[0].tile.start_y, 96);
    assert_eq!(v[0].tile.end_x, 32);
    assert_eq!(v[0].tile.end_y, 112);
}

#[test]
fn wide_characters_take_two_columns() {
    let (mut scene, screen) = text_scene("\u{3042}a");
    let v = match scene.render_frame(&screen).expect("frame") {
        FrameOutput::Relayout(v) => v,
        _ => panic!("first frame owes a full layout"),
    };
    assert_eq!(v.len(), 2);
    // The ideograph is two columns wide, so 'a' starts two columns over.
    assert_eq!(v[1].location.position.x, 20_000);
}

#[test]
fn combining_marks_share_their_cluster_cell() {
    let (mut scene, screen) = text_scene("e\u{301}e");
    let v = match scene.render_frame(&screen).expect("frame") {
        FrameOutput::Relayout(v) => v,
        _ => panic!("first frame owes a full layout"),
    };
    // Three characters, but only two clusters: the accent shares the
    // first cell.
    assert_eq!(v.len(), 3);
    assert_eq!(v[0].location.position.x, 0);
    assert_eq!(v[1].location.position.x, 0);
    assert_eq!(v[2].location.position.x, 10_000);
}

#[test]
fn newlines_start_a_new_text_row() {
    let (mut scene, screen) = text_scene("a\nb");
    let v = match scene.render_frame(&screen).expect("frame") {
        FrameOutput::Relayout(v) => v,
        _ => panic!("first frame owes a full layout"),
    };
    assert_eq!(v.len(), 2);
    assert_eq!(v[0].location.position.y, 0);
    assert_eq!(v[1].location.position.x, 0);
    // A character row is 16 px tall: 20000 subunits on an 800 px screen.
    assert_eq!(v[1].location.position.y, 20_000);
}
