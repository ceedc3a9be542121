//! The scene: one tree, its dirty flags, its asset registries, and the
//! per-frame driver that decides between a full re-layout, a cheap
//! re-render, and doing nothing.

use vstd::prelude::*;
use vstd::string::StrSliceExecFns;
use crate::length::ScreenSize;
use crate::space::{Location, RealLocation};
use crate::node::{check_node, spec_check, Node, NodeKind, Quadrants, SceneError};
use crate::measure::{measure, quadrant_seq, spec_kids, spec_min_size};
use crate::arrange::{arrange, fonts_wf, lemma_quadrants_ok, quad_ref, spec_arrange, quad_at};
use crate::dirty::DirtyFlags;
use crate::registry::Handles;
use crate::render::{re_view, re_views, Instance, RenderEntry};
use crate::sprite::{SheetData, Sprite, Spritesheet, SpritesheetSettings, Texture, Tile};
use crate::text::{text_instances, spec_text_instances, BitmapFont, BitmapFontSettings, ColorRgb, FontData};

verus! {

/// The pixel format of a loaded texture.
#[derive(Clone, Copy, PartialEq, Eq, Structural, Debug)]
pub enum TextureKind {
    /// Full-color pixels.
    Rgba,
    /// Palette indices, colored through a palette texture.
    Indexed,
    /// Single-channel pixels, as glyph coverage.
    Grayscale,
}

/// The renderer-side record of a loaded texture.
#[derive(Clone, Copy, PartialEq, Eq, Structural, Debug)]
pub struct TextureData {
    pub width: u32,
    pub height: u32,
    pub kind: TextureKind,
}

/// One declared property change, applied to the node a path leads to.
#[derive(Debug)]
pub enum Update {
    /// Show or hide the node (and its whole subtree).
    Visible(bool),
    /// Let the node take leftover space in a row or column, or not.
    Stretch(bool),
    /// Re-place the node relative to its parent.
    Place(Location),
    /// Show another tile of the sprite's sheet.
    SpriteTile(Tile),
    /// Recolor the sprite through another palette row.
    SpritePalette(u32),
    /// Show other text.
    TextContent(String),
}

impl Update {
    /// Whether the change can be drawn without re-running layout: tile
    /// and palette changes can, everything else moves geometry.
    pub open spec fn spec_render_only(&self) -> bool {
        match *self {
            Update::SpriteTile(_) => true,
            Update::SpritePalette(_) => true,
            _ => false,
        }
    }

    pub fn is_render_only(&self) -> (r: bool)
        ensures
            r == self.spec_render_only(),
    {
        match *self {
            Update::SpriteTile(_) => true,
            Update::SpritePalette(_) => true,
            _ => false,
        }
    }
}

/// The node the update lands on, changed; `None` when the update does
/// not fit the node.
pub open spec fn spec_apply_here(a: Node, u: Update) -> Option<Node> {
    match u {
        Update::Visible(v) => Some(Node { visible: v, ..a }),
        Update::Stretch(v) => Some(Node { stretch: v, ..a }),
        Update::Place(loc) => Some(Node { location: loc, ..a }),
        Update::SpriteTile(t) => match a.kind {
            NodeKind::Sprite(sp) => Some(
                Node { kind: NodeKind::Sprite(Sprite { tile: t, ..sp }), ..a },
            ),
            _ => None,
        },
        Update::SpritePalette(p) => match a.kind {
            NodeKind::Sprite(sp) => Some(
                Node { kind: NodeKind::Sprite(Sprite { palette: p, ..sp }), ..a },
            ),
            _ => None,
        },
        Update::TextContent(s) => match a.kind {
            NodeKind::Text(t) => Some(
                Node { kind: NodeKind::Text(crate::text::BitmapText { text: s, ..t }), ..a },
            ),
            _ => None,
        },
    }
}

/// Whether `b` is `a` with the update applied at the path: on the way
/// down everything but the addressed child is untouched, and at the end
/// the update fits and lands.
pub open spec fn spec_updated_at(a: Node, b: Node, path: Seq<usize>, u: Update) -> bool
    decreases path.len(),
{
    if path.len() == 0 {
        spec_apply_here(a, u) == Some(b)
    } else {
        let i = path[0] as int;
        &&& b.visible == a.visible
        &&& b.stretch == a.stretch
        &&& b.location == a.location
        &&& same_shape(a, b)
        &&& spec_kids(b).len() == spec_kids(a).len()
        &&& 0 <= i < spec_kids(a).len()
        &&& forall|j: int|
            0 <= j < spec_kids(a).len() && j != i ==> spec_kids(b)[j] == spec_kids(a)[j]
        &&& spec_updated_at(spec_kids(a)[i], spec_kids(b)[i], path.drop_first(), u)
    }
}

/// Same container kind and same non-child payload.
pub open spec fn same_shape(a: Node, b: Node) -> bool {
    match (a.kind, b.kind) {
        (NodeKind::Stack(_), NodeKind::Stack(_)) => true,
        (NodeKind::Row(_), NodeKind::Row(_)) => true,
        (NodeKind::Column(_), NodeKind::Column(_)) => true,
        (NodeKind::Wrap(_), NodeKind::Wrap(_)) => true,
        (NodeKind::Grid(g1), NodeKind::Grid(g2)) => g1.grid_size == g2.grid_size,
        (NodeKind::Border(b1), NodeKind::Border(b2)) => b1.border_size == b2.border_size
            && (b1.quadrants is Some <==> b2.quadrants is Some),
        _ => false,
    }
}

/// The node a path leads to.
pub open spec fn spec_node_at(n: Node, path: Seq<usize>) -> Option<Node>
    decreases path.len(),
{
    if path.len() == 0 {
        Some(n)
    } else if 0 <= path[0] < spec_kids(n).len() {
        spec_node_at(spec_kids(n)[path[0] as int], path.drop_first())
    } else {
        None
    }
}

/// Every child of a passing node passes its own check.
pub(crate) proof fn lemma_check_kids_ok(n: Node)
    requires
        spec_check(n) is Ok,
    ensures
        forall|j: int| 0 <= j < spec_kids(n).len() ==> (#[trigger] spec_check(spec_kids(n)[j])) is Ok,
{
    match n.kind {
        NodeKind::Stack(s) => crate::measure::lemma_check_seq_ok(s.children@),
        NodeKind::Row(s) => crate::measure::lemma_check_seq_ok(s.children@),
        NodeKind::Column(s) => crate::measure::lemma_check_seq_ok(s.children@),
        NodeKind::Wrap(s) => crate::measure::lemma_check_seq_ok(s.children@),
        NodeKind::Grid(g) => crate::measure::lemma_check_seq_ok(g.children@),
        NodeKind::Border(b) => {
            match b.quadrants {
                Some(q) => {
                    lemma_quadrants_ok(q);
                    assert forall|j: int| 0 <= j < spec_kids(n).len() implies (#[trigger] spec_check(
                        spec_kids(n)[j],
                    )) is Ok by {
                        assert(spec_kids(n)[j] == quadrant_seq(q)[j]);
                        assert(quadrant_seq(q)[j] == quad_at(q, j));
                    }
                },
                None => {},
            }
        },
        _ => {},
    }
}

/// Everything a passing root leads to passes its own check.
pub(crate) proof fn lemma_node_at_ok(n: Node, path: Seq<usize>)
    requires
        spec_check(n) is Ok,
        spec_node_at(n, path) is Some,
    ensures
        spec_check(spec_node_at(n, path)->Some_0) is Ok,
    decreases path.len(),
{
    if path.len() > 0 {
        lemma_check_kids_ok(n);
        lemma_node_at_ok(spec_kids(n)[path[0] as int], path.drop_first());
    }
}

/// The `i`-th child a container hands to the layout passes.
fn kid_ref<'a>(n: &'a Node, i: usize) -> (r: Option<&'a Node>)
    ensures
        match r {
            Some(m) => 0 <= i < spec_kids(*n).len() && *m == spec_kids(*n)[i as int],
            None => !(0 <= i < spec_kids(*n).len()),
        },
{
    match &n.kind {
        NodeKind::Sprite(_) => None,
        NodeKind::Text(_) => None,
        NodeKind::Stack(s) => if i < s.children.len() {
            Some(&s.children[i])
        } else {
            None
        },
        NodeKind::Row(s) => if i < s.children.len() {
            Some(&s.children[i])
        } else {
            None
        },
        NodeKind::Column(s) => if i < s.children.len() {
            Some(&s.children[i])
        } else {
            None
        },
        NodeKind::Wrap(s) => if i < s.children.len() {
            Some(&s.children[i])
        } else {
            None
        },
        NodeKind::Grid(g) => if i < g.children.len() {
            Some(&g.children[i])
        } else {
            None
        },
        NodeKind::Border(b) => match &b.quadrants {
            Some(q) => if i < 9 {
                let r = quad_ref(q, i);
                proof {
                    assert(spec_kids(*n)[i as int] == quadrant_seq(*q)[i as int]);
                    assert(quadrant_seq(*q)[i as int] == quad_at(*q, i as int));
                }
                Some(r)
            } else {
                None
            },
            None => None,
        },
    }
}

/// The node a path leads to, if any.
pub fn node_at<'a>(n: &'a Node, path: &Vec<usize>, d: usize) -> (r: Option<&'a Node>)
    requires
        d <= path@.len(),
    ensures
        match r {
            Some(m) => spec_node_at(*n, path@.skip(d as int)) == Some(*m),
            None => spec_node_at(*n, path@.skip(d as int)) is None,
        },
    decreases path@.len() - d,
{
    if d == path.len() {
        proof {
            assert(path@.skip(d as int) =~= Seq::<usize>::empty());
        }
        Some(n)
    } else {
        proof {
            assert(path@.skip(d as int)[0] == path@[d as int]);
            assert(path@.skip(d as int).drop_first() =~= path@.skip(d + 1));
        }
        match kid_ref(n, path[d]) {
            Some(child) => node_at(child, path, d + 1),
            None => None,
        }
    }
}

/// What one frame hands the renderer.
#[derive(Debug)]
pub enum FrameOutput {
    /// Layout was dirty: the whole tree was measured and arranged, and
    /// these are all its draw records, in drawing order.
    Relayout(Vec<Instance>),
    /// Only rendering was dirty: the draw records rebuilt from the
    /// rendered-leaf list and each leaf's current properties.
    Rerender(Vec<Instance>),
    /// Nothing was dirty: nothing to upload.
    Idle,
}

/// The draw records of the render-only path: for each rendered leaf, in
/// order, its records rebuilt from its cached geometry and its current
/// properties.  A leaf whose asset is gone contributes nothing.
pub open spec fn spec_render_pass(
    root: Node,
    ents: Seq<(Seq<usize>, RealLocation, i64, i64)>,
    sheets: Map<u64, SheetData>,
    fonts: Map<u64, FontData>,
    screen: ScreenSize,
) -> Seq<Instance>
    decreases ents.len(),
{
    if ents.len() == 0 {
        Seq::empty()
    } else {
        spec_render_entry(root, ents[0], sheets, fonts, screen) + spec_render_pass(
            root,
            ents.drop_first(),
            sheets,
            fonts,
            screen,
        )
    }
}

/// One rendered leaf's records.
pub open spec fn spec_render_entry(
    root: Node,
    e: (Seq<usize>, RealLocation, i64, i64),
    sheets: Map<u64, SheetData>,
    fonts: Map<u64, FontData>,
    screen: ScreenSize,
) -> Seq<Instance> {
    match spec_node_at(root, e.0) {
        None => Seq::empty(),
        Some(n) => match n.kind {
            NodeKind::Sprite(sp) => {
                if sp.spritesheet is Some && sheets.contains_key(sp.spritesheet->Some_0.handle.id) {
                    seq![
                        Instance {
                            sheet: sp.spritesheet->Some_0.handle,
                            location: e.1,
                            uv_width: e.2,
                            uv_height: e.3,
                            tile: sp.tile,
                            palette: sp.palette,
                            color: ColorRgb { r: 0, g: 0, b: 0 },
                        },
                    ]
                } else {
                    Seq::empty()
                }
            },
            NodeKind::Text(t) => {
                if t.font is Some && t.char_size is Some && fonts.contains_key(
                    t.font->Some_0.handle.id,
                ) && e.1.wf() {
                    spec_text_instances(
                        t,
                        fonts[t.font->Some_0.handle.id],
                        e.1,
                        spec_min_size(n, screen),
                        screen,
                    )
                } else {
                    Seq::empty()
                }
            },
            _ => Seq::empty(),
        },
    }
}

/// A scene: the tree, what it owes the renderer, the list of leaves the
/// last full layout drew, and the asset registries.
#[derive(Debug)]
pub struct Scene {
    root: Node,
    dirty: DirtyFlags,
    rendered: Vec<RenderEntry>,
    textures: Handles<TextureData>,
    spritesheets: Handles<SheetData>,
    fonts: Handles<FontData>,
}

impl Scene {
    /// The registries are sound and every loaded font has a usable
    /// glyph grid.
    pub closed spec fn wf(&self) -> bool {
        &&& self.textures.wf()
        &&& self.spritesheets.wf()
        &&& self.fonts.wf()
        &&& fonts_wf(self.fonts.spec_map())
    }

    pub closed spec fn spec_root(&self) -> Node {
        self.root
    }

    pub closed spec fn spec_rendered(&self) -> Seq<(Seq<usize>, RealLocation, i64, i64)> {
        re_views(self.rendered@)
    }

    pub closed spec fn spec_layout_dirty(&self) -> bool {
        self.dirty.spec_layout()
    }

    pub closed spec fn spec_render_dirty(&self) -> bool {
        self.dirty.spec_render()
    }

    /// The loaded textures, by handle id.
    pub closed spec fn spec_textures(&self) -> Map<u64, TextureData> {
        self.textures.spec_map()
    }

    /// The loaded spritesheets, by handle id.
    pub closed spec fn spec_sheets(&self) -> Map<u64, SheetData> {
        self.spritesheets.spec_map()
    }

    /// The loaded fonts, by handle id.
    pub closed spec fn spec_fonts(&self) -> Map<u64, FontData> {
        self.fonts.spec_map()
    }

    /// A new scene owes its first full layout.
    pub fn new(root: Node) -> (r: Scene)
        ensures
            r.wf(),
            r.spec_root() == root,
            r.spec_layout_dirty(),
            r.spec_render_dirty(),
            r.spec_rendered() == Seq::<(Seq<usize>, RealLocation, i64, i64)>::empty(),
            r.spec_textures() == Map::<u64, TextureData>::empty(),
            r.spec_sheets() == Map::<u64, SheetData>::empty(),
            r.spec_fonts() == Map::<u64, FontData>::empty(),
    {
        let r = Scene {
            root,
            dirty: DirtyFlags::new(),
            rendered: Vec::new(),
            textures: Handles::new(),
            spritesheets: Handles::new(),
            fonts: Handles::new(),
        };
        proof {
            assert(re_views(r.rendered@) =~= Seq::<(Seq<usize>, RealLocation, i64, i64)>::empty());
        }
        r
    }

    /// Replace the whole tree; a full layout is owed.
    pub fn set_root(&mut self, root: Node)
        requires
            old(self).wf(),
        ensures
            final(self).wf(),
            final(self).spec_root() == root,
            final(self).spec_layout_dirty(),
            final(self).spec_render_dirty(),
            final(self).spec_rendered() == old(self).spec_rendered(),
            final(self).spec_textures() == old(self).spec_textures(),
            final(self).spec_sheets() == old(self).spec_sheets(),
            final(self).spec_fonts() == old(self).spec_fonts(),
    {
        self.root = root;
        self.dirty.trigger_layout_change();
    }

    /// Make a texture available under its handle; a redraw is owed.
    pub fn load_texture(&mut self, texture: &Texture, data: TextureData)
        requires
            old(self).wf(),
        ensures
            final(self).wf(),
            final(self).spec_textures() == old(self).spec_textures().insert(
                texture.handle.id,
                data,
            ),
            final(self).spec_sheets() == old(self).spec_sheets(),
            final(self).spec_fonts() == old(self).spec_fonts(),
            final(self).spec_root() == old(self).spec_root(),
            final(self).spec_rendered() == old(self).spec_rendered(),
            final(self).spec_layout_dirty() == old(self).spec_layout_dirty(),
            final(self).spec_render_dirty(),
    {
        let _ = self.textures.insert(&texture.handle, data);
        self.dirty.trigger_render_change();
    }

    /// Drop a texture; a redraw is owed.
    pub fn unload_texture(&mut self, texture: &Texture)
        requires
            old(self).wf(),
        ensures
            final(self).wf(),
            final(self).spec_textures() == old(self).spec_textures().remove(
                texture.handle.id,
            ),
            final(self).spec_sheets() == old(self).spec_sheets(),
            final(self).spec_fonts() == old(self).spec_fonts(),
            final(self).spec_root() == old(self).spec_root(),
            final(self).spec_rendered() == old(self).spec_rendered(),
            final(self).spec_layout_dirty() == old(self).spec_layout_dirty(),
            final(self).spec_render_dirty(),
    {
        let _ = self.textures.remove(&texture.handle);
        self.dirty.trigger_render_change();
    }

    /// Make a spritesheet available under its handle: its texture must
    /// be loaded with the matching format (full-color, or palette
    /// indices together with a full-color palette).  A full layout is
    /// owed on success.
    pub fn load_spritesheet(&mut self, sheet: &Spritesheet, settings: SpritesheetSettings) -> (r:
        Result<(), SceneError>)
        requires
            old(self).wf(),
        ensures
            final(self).wf(),
            ({
                let t = old(self).spec_textures();
                let tid = settings.texture.handle.id;
                match settings.palette {
                    None => {
                        &&& (r is Ok <==> t.contains_key(tid) && t[tid].kind == TextureKind::Rgba)
                        &&& (r matches Err(e) ==> (e == SceneError::TextureNotLoaded
                            <==> !t.contains_key(tid)))
                    },
                    Some(p) => {
                        let pid = p.handle.id;
                        &&& (r is Ok <==> t.contains_key(tid) && t[tid].kind
                            == TextureKind::Indexed && t.contains_key(pid) && t[pid].kind
                            == TextureKind::Rgba)
                    },
                }
            }),
            r is Ok ==> final(self).spec_sheets() == old(self).spec_sheets().insert(
                sheet.handle.id,
                (SheetData {
                    texture: settings.texture.handle,
                    palette: match settings.palette {
                        Some(p) => Some(p.handle),
                        None => None,
                    },
                }),
            ) && final(self).spec_layout_dirty() && final(self).spec_render_dirty(),
            r is Err ==> final(self).spec_sheets() == old(self).spec_sheets() && final(self).spec_layout_dirty() == old(self).spec_layout_dirty() && final(self).spec_render_dirty() == old(self).spec_render_dirty(),
            final(self).spec_textures() == old(self).spec_textures(),
            final(self).spec_fonts() == old(self).spec_fonts(),
            final(self).spec_root() == old(self).spec_root(),
            final(self).spec_rendered() == old(self).spec_rendered(),
    {
        let tex = match self.textures.get(&settings.texture.handle) {
            Some(t) => *t,
            None => {
                return Err(SceneError::TextureNotLoaded);
            },
        };
        match settings.palette {
            None => {
                if !matches!(tex.kind, TextureKind::Rgba) {
                    return Err(SceneError::WrongTextureFormat);
                }
                let _ = self.spritesheets.insert(
                    &sheet.handle,
                    SheetData { texture: settings.texture.handle, palette: None },
                );
                self.dirty.trigger_layout_change();
                Ok(())
            },
            Some(p) => {
                if !matches!(tex.kind, TextureKind::Indexed) {
                    return Err(SceneError::WrongTextureFormat);
                }
                let pal = match self.textures.get(&p.handle) {
                    Some(t) => *t,
                    None => {
                        return Err(SceneError::TextureNotLoaded);
                    },
                };
                if !matches!(pal.kind, TextureKind::Rgba) {
                    return Err(SceneError::WrongTextureFormat);
                }
                let _ = self.spritesheets.insert(
                    &sheet.handle,
                    SheetData { texture: settings.texture.handle, palette: Some(p.handle) },
                );
                self.dirty.trigger_layout_change();
                Ok(())
            },
        }
    }

    /// Drop a spritesheet; a full layout is owed.
    pub fn unload_spritesheet(&mut self, sheet: &Spritesheet)
        requires
            old(self).wf(),
        ensures
            final(self).wf(),
            final(self).spec_sheets() == old(self).spec_sheets().remove(
                sheet.handle.id,
            ),
            final(self).spec_textures() == old(self).spec_textures(),
            final(self).spec_fonts() == old(self).spec_fonts(),
            final(self).spec_root() == old(self).spec_root(),
            final(self).spec_rendered() == old(self).spec_rendered(),
            final(self).spec_layout_dirty(),
            final(self).spec_render_dirty(),
    {
        let _ = self.spritesheets.remove(&sheet.handle);
        self.dirty.trigger_layout_change();
    }

    /// Make a bitmap font available under its handle: its texture must
    /// be a loaded grayscale glyph sheet, and the glyph grid must have
    /// at least one column.  A full layout is owed on success.
    pub fn load_font(&mut self, font: &BitmapFont, settings: BitmapFontSettings) -> (r: Result<
        (),
        SceneError,
    >)
        requires
            old(self).wf(),
        ensures
            final(self).wf(),
            ({
                let t = old(self).spec_textures();
                let tid = settings.texture.handle.id;
                r is Ok <==> settings.columns >= 1 && t.contains_key(tid) && t[tid].kind
                    == TextureKind::Grayscale
            }),
            r is Ok ==> final(self).spec_fonts() == old(self).spec_fonts().insert(
                font.handle.id,
                (FontData {
                    supported: settings.supported,
                    columns: settings.columns,
                    tile_width: settings.tile_width,
                    tile_height: settings.tile_height,
                }),
            ) && final(self).spec_layout_dirty() && final(self).spec_render_dirty(),
            r is Err ==> final(self).spec_fonts() == old(self).spec_fonts() && final(self).spec_layout_dirty()
                == old(self).spec_layout_dirty() && final(self).spec_render_dirty() == old(self).spec_render_dirty(),
            final(self).spec_textures() == old(self).spec_textures(),
            final(self).spec_sheets() == old(self).spec_sheets(),
            final(self).spec_root() == old(self).spec_root(),
            final(self).spec_rendered() == old(self).spec_rendered(),
    {
        if settings.columns < 1 {
            return Err(SceneError::FontGridEmpty);
        }
        let tex = match self.textures.get(&settings.texture.handle) {
            Some(t) => *t,
            None => {
                return Err(SceneError::TextureNotLoaded);
            },
        };
        if !matches!(tex.kind, TextureKind::Grayscale) {
            return Err(SceneError::WrongTextureFormat);
        }
        let _ = self.fonts.insert(
            &font.handle,
            FontData {
                supported: settings.supported,
                columns: settings.columns,
                tile_width: settings.tile_width,
                tile_height: settings.tile_height,
            },
        );
        self.dirty.trigger_layout_change();
        Ok(())
    }

    /// Drop a font; a full layout is owed.
    pub fn unload_font(&mut self, font: &BitmapFont)
        requires
            old(self).wf(),
        ensures
            final(self).wf(),
            final(self).spec_fonts() == old(self).spec_fonts().remove(font.handle.id),
            final(self).spec_textures() == old(self).spec_textures(),
            final(self).spec_sheets() == old(self).spec_sheets(),
            final(self).spec_root() == old(self).spec_root(),
            final(self).spec_rendered() == old(self).spec_rendered(),
            final(self).spec_layout_dirty(),
            final(self).spec_render_dirty(),
    {
        let _ = self.fonts.remove(&font.handle);
        self.dirty.trigger_layout_change();
    }

    /// Apply one property change to the node a path leads to, and flag
    /// the owed work: geometry changes owe a full layout, tile and
    /// palette changes owe only a redraw.
    pub fn update(&mut self, path: &Vec<usize>, u: Update) -> (r: Result<(), SceneError>)
        requires
            old(self).wf(),
        ensures
            final(self).wf(),
            match r {
                Ok(u2) => spec_updated_at(old(self).spec_root(), final(self).spec_root(), path@, u),
                Err(e) => final(self).spec_root() == old(self).spec_root() && (e
                    == SceneError::NoSuchNode <==> spec_node_at(old(self).spec_root(), path@)
                    is None) && (e == SceneError::WrongNodeKind ==> spec_node_at(
                    old(self).spec_root(),
                    path@,
                ) is Some && !spec_fits(spec_node_at(old(self).spec_root(), path@)->Some_0, u)),
            },
            r is Ok <==> spec_node_at(old(self).spec_root(), path@) is Some && spec_fits(
                spec_node_at(old(self).spec_root(), path@)->Some_0,
                u,
            ),
            r is Ok && u.spec_render_only() ==> final(self).spec_layout_dirty() == old(self).spec_layout_dirty() && final(self).spec_render_dirty(),
            r is Ok && !u.spec_render_only() ==> final(self).spec_layout_dirty() && final(self).spec_render_dirty(),
            r is Err ==> final(self).spec_layout_dirty() == old(self).spec_layout_dirty() && final(self).spec_render_dirty() == old(self).spec_render_dirty(),
            final(self).spec_rendered() == old(self).spec_rendered(),
            final(self).spec_textures() == old(self).spec_textures(),
            final(self).spec_sheets() == old(self).spec_sheets(),
            final(self).spec_fonts() == old(self).spec_fonts(),
    {
        proof {
            assert(path@.skip(0) =~= path@);
        }
        match node_at(&self.root, path, 0) {
            None => {
                return Err(SceneError::NoSuchNode);
            },
            Some(target) => {
                if !fits_node(target, &u) {
                    return Err(SceneError::WrongNodeKind);
                }
            },
        }
        let render_only = u.is_render_only();
        apply_update(&mut self.root, path, 0, u);
        if render_only {
            self.dirty.trigger_render_change();
        } else {
            self.dirty.trigger_layout_change();
        }
        Ok(())
    }

    /// Run one frame: when layout is owed, measure and arrange the whole
    /// tree from the full screen rectangle and rebuild the rendered-leaf
    /// list; when only a redraw is owed, rebuild draw records from the
    /// rendered-leaf list alone; otherwise do nothing.  A tree that
    /// fails its configuration check aborts the frame untouched.
    pub fn render_frame(&mut self, screen: &ScreenSize) -> (r: Result<FrameOutput, SceneError>)
        requires
            old(self).wf(),
            screen.wf(),
        ensures
            final(self).wf(),
            final(self).spec_root() == old(self).spec_root(),
            final(self).spec_textures() == old(self).spec_textures(),
            final(self).spec_sheets() == old(self).spec_sheets(),
            final(self).spec_fonts() == old(self).spec_fonts(),
            match r {
                Err(e) => spec_check(old(self).spec_root()) == Err::<(), SceneError>(e) && final(self).spec_rendered() == old(self).spec_rendered() && final(self).spec_layout_dirty()
                    == old(self).spec_layout_dirty() && final(self).spec_render_dirty() == old(self).spec_render_dirty(),
                Ok(out) => {
                    &&& spec_check(old(self).spec_root()) is Ok
                    &&& !final(self).spec_layout_dirty()
                    &&& !final(self).spec_render_dirty()
                    &&& match out {
                        FrameOutput::Relayout(v) => {
                            &&& old(self).spec_layout_dirty()
                            &&& if old(self).spec_root().visible {
                                let s = spec_arrange(
                                    old(self).spec_root(),
                                    RealLocation::spec_full(),
                                    crate::num::SCALE as int,
                                    Seq::empty(),
                                    old(self).spec_sheets(),
                                    old(self).spec_fonts(),
                                    *screen,
                                );
                                v@ == s.0 && final(self).spec_rendered() == s.1
                            } else {
                                v@ == Seq::<Instance>::empty() && final(self).spec_rendered()
                                    == Seq::<(Seq<usize>, RealLocation, i64, i64)>::empty()
                            }
                        },
                        FrameOutput::Rerender(v) => {
                            &&& !old(self).spec_layout_dirty()
                            &&& old(self).spec_render_dirty()
                            &&& v@ == spec_render_pass(
                                old(self).spec_root(),
                                old(self).spec_rendered(),
                                old(self).spec_sheets(),
                                old(self).spec_fonts(),
                                *screen,
                            )
                            &&& final(self).spec_rendered() == old(self).spec_rendered()
                        },
                        FrameOutput::Idle => {
                            &&& !old(self).spec_layout_dirty()
                            &&& !old(self).spec_render_dirty()
                            &&& final(self).spec_rendered() == old(self).spec_rendered()
                        },
                    }
                },
            },
    {
        if let Err(e) = check_node(&self.root) {
            return Err(e);
        }
        let flags = self.dirty.replace();
        if flags.0 {
            if self.root.visible {
                let m = measure(&self.root, screen);
                let mut insts: Vec<Instance> = Vec::new();
                let mut ents: Vec<RenderEntry> = Vec::new();
                let mut path: Vec<usize> = Vec::new();
                let parent = RealLocation::full();
                let _wm = arrange(
                    &self.root,
                    &m,
                    &parent,
                    crate::num::SCALE,
                    &mut path,
                    &self.spritesheets,
                    &self.fonts,
                    screen,
                    &mut insts,
                    &mut ents,
                );
                proof {
                    let s = spec_arrange(
                        self.root,
                        RealLocation::spec_full(),
                        crate::num::SCALE as int,
                        Seq::empty(),
                        self.spritesheets.spec_map(),
                        self.fonts.spec_map(),
                        *screen,
                    );
                    assert(insts@ =~= s.0);
                    assert(re_views(ents@) =~= s.1);
                }
                self.rendered = ents;
                Ok(FrameOutput::Relayout(insts))
            } else {
                self.rendered = Vec::new();
                proof {
                    assert(re_views(self.rendered@) =~= Seq::<(
                        Seq<usize>,
                        RealLocation,
                        i64,
                        i64,
                    )>::empty());
                }
                Ok(FrameOutput::Relayout(Vec::new()))
            }
        } else if flags.1 {
            let v = self.render_pass(screen);
            Ok(FrameOutput::Rerender(v))
        } else {
            Ok(FrameOutput::Idle)
        }
    }

    /// Rebuild draw records from the rendered-leaf list and each leaf's
    /// current properties, without running layout.
    fn render_pass(&self, screen: &ScreenSize) -> (v: Vec<Instance>)
        requires
            self.wf(),
            spec_check(self.spec_root()) is Ok,
            screen.wf(),
        ensures
            v@ == spec_render_pass(
                self.spec_root(),
                self.spec_rendered(),
                self.spritesheets.spec_map(),
                self.fonts.spec_map(),
                *screen,
            ),
    {
        let ghost ents = re_views(self.rendered@);
        let ghost full = spec_render_pass(
            self.spec_root(),
            ents,
            self.spritesheets.spec_map(),
            self.fonts.spec_map(),
            *screen,
        );
        let n = self.rendered.len();
        let mut out: Vec<Instance> = Vec::new();
        let mut i: usize = 0;
        proof {
            assert(ents.skip(0) =~= ents);
        }
        while i < n
            invariant
                n == self.rendered@.len(),
                0 <= i <= n,
                self.wf(),
                spec_check(self.spec_root()) is Ok,
                screen.wf(),
                ents == re_views(self.rendered@),
                full == spec_render_pass(
                    self.spec_root(),
                    ents,
                    self.spritesheets.spec_map(),
                    self.fonts.spec_map(),
                    *screen,
                ),
                out@ + spec_render_pass(
                    self.spec_root(),
                    ents.skip(i as int),
                    self.spritesheets.spec_map(),
                    self.fonts.spec_map(),
                    *screen,
                ) == full,
            decreases n - i,
        {
            proof {
                assert(ents.skip(i as int)[0] == ents[i as int]);
                assert(ents.skip(i as int).drop_first() =~= ents.skip(i + 1));
                assert(ents[i as int] == re_view(self.rendered@[i as int]));
            }
            let ghost out_before = out@;
            let ghost piece = spec_render_entry(
                self.spec_root(),
                ents[i as int],
                self.spritesheets.spec_map(),
                self.fonts.spec_map(),
                *screen,
            );
            let e = &self.rendered[i];
            match node_at(&self.root, &e.path, 0) {
                None => {
                    proof {
                        assert(e.path@.skip(0) =~= e.path@);
                        assert(out@ + piece =~= out@);
                    }
                },
                Some(node) => {
                    proof {
                        assert(e.path@.skip(0) =~= e.path@);
                        lemma_node_at_ok(self.spec_root(), e.path@);
                    }
                    match &node.kind {
                        NodeKind::Sprite(sp) => {
                            let sheet = sp.spritesheet.as_ref().unwrap();
                            if self.spritesheets.contains(&sheet.handle) {
                                let inst = Instance {
                                    sheet: sheet.handle,
                                    location: e.location,
                                    uv_width: e.uv_width,
                                    uv_height: e.uv_height,
                                    tile: sp.tile,
                                    palette: sp.palette,
                                    color: ColorRgb { r: 0, g: 0, b: 0 },
                                };
                                out.push(inst);
                                proof {
                                    assert(out@ =~= out_before + piece);
                                }
                            } else {
                                proof {
                                    assert(out@ + piece =~= out@);
                                }
                            }
                        },
                        NodeKind::Text(t) => {
                            let font = t.font.as_ref().unwrap();
                            match self.fonts.get(&font.handle) {
                                Some(fd) => {
                                    if e.location.check_wf() {
                                        let m = measure(node, screen);
                                        let mut glyphs = text_instances(
                                            t,
                                            fd,
                                            &e.location,
                                            &m.size,
                                            screen,
                                        );
                                        let ghost g0 = glyphs@;
                                        out.append(&mut glyphs);
                                        proof {
                                            assert(out@ =~= out_before + piece);
                                        }
                                    } else {
                                        proof {
                                            assert(out@ + piece =~= out@);
                                        }
                                    }
                                },
                                None => {
                                    proof {
                                        assert(out@ + piece =~= out@);
                                    }
                                },
                            }
                        },
                        _ => {
                            proof {
                                assert(out@ + piece =~= out@);
                            }
                        },
                    }
                },
            }
            proof {
                let rest2 = spec_render_pass(
                    self.spec_root(),
                    ents.skip(i + 1),
                    self.spritesheets.spec_map(),
                    self.fonts.spec_map(),
                    *screen,
                );
                assert((out_before + piece) + rest2 =~= out_before + (piece + rest2));
            }
            i = i + 1;
        }
        proof {
            assert(ents.skip(n as int) =~= Seq::<(Seq<usize>, RealLocation, i64, i64)>::empty());
            assert(out@ + Seq::<Instance>::empty() =~= out@);
        }
        out
    }

}

/// Whether an update fits a node: tile and palette changes need a
/// sprite, text changes need a text node, the rest fit anything.
pub open spec fn spec_fits(n: Node, u: Update) -> bool {
    match u {
        Update::SpriteTile(_) => n.kind is Sprite,
        Update::SpritePalette(_) => n.kind is Sprite,
        Update::TextContent(_) => n.kind is Text,
        _ => true,
    }
}

/// Whether an update fits a node.
fn fits_node(n: &Node, u: &Update) -> (r: bool)
    ensures
        r == spec_fits(*n, *u),
{
    match u {
        Update::SpriteTile(_) => matches!(n.kind, NodeKind::Sprite(_)),
        Update::SpritePalette(_) => matches!(n.kind, NodeKind::Sprite(_)),
        Update::TextContent(_) => matches!(n.kind, NodeKind::Text(_)),
        _ => true,
    }
}

/// Walk the path and apply the change at its end.  Callers have already
/// checked that the path leads somewhere and that the change fits.
fn apply_update(n: &mut Node, path: &Vec<usize>, d: usize, u: Update)
    requires
        d <= path@.len(),
        spec_node_at(*old(n), path@.skip(d as int)) is Some,
        spec_fits(spec_node_at(*old(n), path@.skip(d as int))->Some_0, u),
    ensures
        spec_updated_at(*old(n), *final(n), path@.skip(d as int), u),
    decreases path@.len() - d,
{
    if d == path.len() {
        proof {
            assert(path@.skip(d as int) =~= Seq::<usize>::empty());
        }
        match u {
            Update::Visible(v) => {
                n.visible = v;
            },
            Update::Stretch(v) => {
                n.stretch = v;
            },
            Update::Place(loc) => {
                n.location = loc;
            },
            Update::SpriteTile(t) => match &mut n.kind {
                NodeKind::Sprite(sp) => {
                    sp.tile = t;
                },
                _ => {
                    proof {
                        assert(false);
                    }
                },
            },
            Update::SpritePalette(p) => match &mut n.kind {
                NodeKind::Sprite(sp) => {
                    sp.palette = p;
                },
                _ => {
                    proof {
                        assert(false);
                    }
                },
            },
            Update::TextContent(s) => match &mut n.kind {
                NodeKind::Text(t) => {
                    t.text = s;
                },
                _ => {
                    proof {
                        assert(false);
                    }
                },
            },
        }
    } else {
        proof {
            assert(path@.skip(d as int)[0] == path@[d as int]);
            assert(path@.skip(d as int).drop_first() =~= path@.skip(d + 1));
        }
        let i = path[d];
        match &mut n.kind {
            NodeKind::Stack(s) => {
                apply_update(&mut s.children[i], path, d + 1, u);
                proof {
                    assert(spec_kids(*n).len() == spec_kids(*old(n)).len());
                    assert forall|j: int|
                        0 <= j < spec_kids(*old(n)).len() && j != i as int implies spec_kids(*n)[j]
                        == spec_kids(*old(n))[j] by {}
                    assert(spec_updated_at(*old(n), *n, path@.skip(d as int), u));
                }
            },
            NodeKind::Row(s) => {
                apply_update(&mut s.children[i], path, d + 1, u);
                proof {
                    assert(spec_kids(*n).len() == spec_kids(*old(n)).len());
                    assert forall|j: int|
                        0 <= j < spec_kids(*old(n)).len() && j != i as int implies spec_kids(*n)[j]
                        == spec_kids(*old(n))[j] by {}
                    assert(spec_updated_at(*old(n), *n, path@.skip(d as int), u));
                }
            },
            NodeKind::Column(s) => {
                apply_update(&mut s.children[i], path, d + 1, u);
                proof {
                    assert(spec_kids(*n).len() == spec_kids(*old(n)).len());
                    assert forall|j: int|
                        0 <= j < spec_kids(*old(n)).len() && j != i as int implies spec_kids(*n)[j]
                        == spec_kids(*old(n))[j] by {}
                    assert(spec_updated_at(*old(n), *n, path@.skip(d as int), u));
                }
            },
            NodeKind::Wrap(s) => {
                apply_update(&mut s.children[i], path, d + 1, u);
                proof {
                    assert(spec_kids(*n).len() == spec_kids(*old(n)).len());
                    assert forall|j: int|
                        0 <= j < spec_kids(*old(n)).len() && j != i as int implies spec_kids(*n)[j]
                        == spec_kids(*old(n))[j] by {}
                    assert(spec_updated_at(*old(n), *n, path@.skip(d as int), u));
                }
            },
            NodeKind::Grid(g) => {
                apply_update(&mut g.children[i], path, d + 1, u);
                proof {
                    assert(spec_kids(*n).len() == spec_kids(*old(n)).len());
                    assert forall|j: int|
                        0 <= j < spec_kids(*old(n)).len() && j != i as int implies spec_kids(*n)[j]
                        == spec_kids(*old(n))[j] by {}
                    assert(spec_updated_at(*old(n), *n, path@.skip(d as int), u));
                }
            },
            NodeKind::Border(b) => {
                match &mut b.quadrants {
                    Some(q) => {
                        let ghost q0 = *q;
                        match i {
                            0 => apply_update(&mut q.up_left, path, d + 1, u),
                            1 => apply_update(&mut q.up, path, d + 1, u),
                            2 => apply_update(&mut q.up_right, path, d + 1, u),
                            3 => apply_update(&mut q.left, path, d + 1, u),
                            4 => apply_update(&mut q.center, path, d + 1, u),
                            5 => apply_update(&mut q.right, path, d + 1, u),
                            6 => apply_update(&mut q.down_left, path, d + 1, u),
                            7 => apply_update(&mut q.down, path, d + 1, u),
                            _ => apply_update(&mut q.down_right, path, d + 1, u),
                        }
                        proof {
                            assert forall|j: int|
                                0 <= j < 9 && j != i as int implies quadrant_seq(*q)[j]
                                == quadrant_seq(q0)[j] by {
                                assert(quadrant_seq(*q)[j] == quad_at(*q, j));
                                assert(quadrant_seq(q0)[j] == quad_at(q0, j));
                            }
                            assert(quadrant_seq(*q)[i as int] == quad_at(*q, i as int));
                            assert(quadrant_seq(q0)[i as int] == quad_at(q0, i as int));
                            assert(spec_kids(*n) == quadrant_seq(*q));
                            assert(spec_kids(*old(n)) == quadrant_seq(q0));
                            assert(same_shape(*old(n), *n));
                            assert(spec_updated_at(*old(n), *n, path@.skip(d as int), u));
                        }
                    },
                    None => {
                        proof {
                            assert(false);
                        }
                    },
                }
            },
            NodeKind::Sprite(_) => {
                proof {
                    assert(false);
                }
            },
            NodeKind::Text(_) => {
                proof {
                    assert(false);
                }
            },
        }
    }
}

} // verus!
