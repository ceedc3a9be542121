//! Bitmap-font text leaves: fonts, character sizing, and the text payload.

use vstd::prelude::*;
use vstd::string::StrSliceExecFns;
use unicode_segmentation::UnicodeSegmentation;
use unicode_width::UnicodeWidthChar;
use crate::num::{add_sat, clamped, in_range, mul_div, muldiv, sub_clamp0, sub_size, MAX_COORD, SCALE};
use crate::length::{resolve, spec_resolve, Axis, Length, ScreenSize};
use crate::registry::Handle;
use crate::render::Instance;
use crate::space::{RealLocation, RealPosition, RealSize};
use crate::sprite::{Texture, Tile};

verus! {

/// A text color; each channel is a fixed-point fraction from zero to `SCALE`.
#[derive(Clone, Copy, PartialEq, Eq, Structural, Debug)]
pub struct ColorRgb {
    pub r: i64,
    pub g: i64,
    pub b: i64,
}

impl ColorRgb {
    pub open spec fn wf(&self) -> bool {
        in_range(self.r as int) && in_range(self.g as int) && in_range(self.b as int)
    }

    pub fn check_wf(&self) -> (r: bool)
        ensures
            r == self.wf(),
    {
        -MAX_COORD <= self.r && self.r <= MAX_COORD && -MAX_COORD <= self.g && self.g <= MAX_COORD
            && -MAX_COORD <= self.b && self.b <= MAX_COORD
    }

    pub fn black() -> (r: ColorRgb)
        ensures
            r == (ColorRgb { r: 0, g: 0, b: 0 }),
    {
        ColorRgb { r: 0, g: 0, b: 0 }
    }
}

impl Default for ColorRgb {
    /// Black.
    fn default() -> (r: ColorRgb)
        ensures
            r == (ColorRgb { r: 0, g: 0, b: 0 }),
    {
        ColorRgb { r: 0, g: 0, b: 0 }
    }
}

/// The width and height of one character cell.
#[derive(Clone, Copy, PartialEq, Eq, Structural, Debug)]
pub struct CharSize {
    pub width: Length,
    pub height: Length,
}

impl CharSize {
    pub open spec fn wf(&self) -> bool {
        self.width.wf() && self.height.wf()
    }

    pub fn check_wf(&self) -> (r: bool)
        ensures
            r == self.wf(),
    {
        self.width.check_wf() && self.height.check_wf()
    }
}

/// The range of characters a bitmap font supports; anything outside the
/// range is drawn as the replacement character.
#[derive(Clone, Copy, PartialEq, Eq, Structural, Debug)]
pub struct BitmapFontSupported {
    pub start: char,
    pub end: char,
    pub replace: char,
}

impl BitmapFontSupported {
    /// The character to draw for `c`: `c` itself when supported, the
    /// replacement character otherwise.
    pub fn replace(&self, c: char) -> (r: char)
        ensures
            r == self.spec_replace(c),
    {
        if c < self.start || c > self.end {
            self.replace
        } else {
            c
        }
    }

    pub open spec fn spec_replace(&self, c: char) -> char {
        if c < self.start || c > self.end {
            self.replace
        } else {
            c
        }
    }
}

/// What a bitmap font is made of: a texture holding a grid of glyph
/// tiles, the supported character range, and the tile grid geometry.
#[derive(Clone, Copy, PartialEq, Eq, Structural, Debug)]
pub struct BitmapFontSettings {
    pub texture: Texture,
    pub supported: BitmapFontSupported,
    pub columns: u32,
    pub tile_width: u32,
    pub tile_height: u32,
}

/// A handle to a loaded bitmap font.
#[derive(Clone, Copy, PartialEq, Eq, Structural, Debug)]
pub struct BitmapFont {
    pub handle: Handle,
}

impl BitmapFont {
    /// Callers pick the identity; two fonts are the same asset exactly
    /// when their handles are equal.
    pub fn new(handle: Handle) -> (r: BitmapFont)
        ensures
            r == (BitmapFont { handle }),
    {
        BitmapFont { handle }
    }
}

/// The text leaf payload: which font to draw with, the character cell
/// size, the text itself, its color, and extra space between lines.
#[derive(Debug)]
pub struct BitmapText {
    pub font: Option<BitmapFont>,
    pub char_size: Option<CharSize>,
    pub text: String,
    pub text_color: ColorRgb,
    pub line_spacing: Length,
}

impl BitmapText {
    pub open spec fn wf(&self) -> bool {
        &&& self.text_color.wf()
        &&& self.line_spacing.wf()
        &&& match self.char_size {
            Some(cs) => cs.wf(),
            None => true,
        }
    }

    pub fn check_wf(&self) -> (r: bool)
        ensures
            r == self.wf(),
    {
        self.text_color.check_wf() && self.line_spacing.check_wf() && match &self.char_size {
            Some(cs) => cs.check_wf(),
            None => true,
        }
    }

    /// Empty black text with no font chosen yet.
    pub fn new() -> (r: BitmapText)
        ensures
            r.font.is_none(),
            r.char_size.is_none(),
            r.text@ == Seq::<char>::empty(),
            r.text_color == (ColorRgb { r: 0, g: 0, b: 0 }),
            r.line_spacing == Length::Zero,
            r.wf(),
    {
        BitmapText {
            font: None,
            char_size: None,
            text: String::new(),
            text_color: ColorRgb { r: 0, g: 0, b: 0 },
            line_spacing: Length::Zero,
        }
    }
}


/// The renderer-side record of a loaded bitmap font: its glyph grid and
/// the character range it supports.
#[derive(Clone, Copy, PartialEq, Eq, Structural, Debug)]
pub struct FontData {
    pub supported: BitmapFontSupported,
    pub columns: u32,
    pub tile_width: u32,
    pub tile_height: u32,
}

impl FontData {
    /// The glyph grid has at least one column.
    pub open spec fn wf(&self) -> bool {
        self.columns >= 1
    }
}

/// What the grapheme segmentation of a string is.  The segmentation is a
/// function of the characters alone.
pub uninterp spec fn graphemes_of(s: Seq<char>) -> Seq<Seq<char>>;

/// The segments of a partition, concatenated back together.
pub open spec fn concat_chars(gs: Seq<Seq<char>>) -> Seq<char>
    decreases gs.len(),
{
    if gs.len() == 0 {
        Seq::empty()
    } else {
        gs[0] + concat_chars(gs.drop_first())
    }
}

/// Relies on unicode_segmentation's `graphemes`: splits a string into
/// extended grapheme clusters; concatenating the clusters gives the
/// string back.
#[verifier::external_body]
fn grapheme_clusters(s: &str) -> (r: Vec<String>)
    ensures
        r@.map_values(|g: String| g@) == graphemes_of(s@),
        concat_chars(r@.map_values(|g: String| g@)) == s@,
{
    s.graphemes(true).map(|g| g.to_string()).collect()
}

/// What unicode_width answers for one character.  The answer is a
/// function of the character alone.
pub uninterp spec fn char_width_of(c: char) -> Option<usize>;

/// Relies on unicode_width's `UnicodeWidthChar::width`: the displayed
/// width of a character in columns, `None` for a control character.
/// The crate's width rules assign no character a width above three.
#[verifier::external_body]
fn char_display_width(c: char) -> (r: Option<usize>)
    ensures
        r == char_width_of(c),
        r matches Some(w) ==> w <= 3,
{
    UnicodeWidthChar::width(c)
}

/// The width this engine uses for a character: the displayed width, with
/// control characters read as double-width.
pub open spec fn spec_char_width(c: char) -> int {
    match char_width_of(c) {
        Some(w) => w as int,
        None => 2,
    }
}

/// The displayed width of one character in columns.
pub fn char_width(c: char) -> (r: u32)
    ensures
        r as int == spec_char_width(c),
        r <= 3,
{
    match char_display_width(c) {
        Some(w) => w as u32,
        None => 2,
    }
}

/// A value capped at the largest pixel coordinate.
pub open spec fn sat_u32(x: int) -> int {
    if x > u32::MAX as int {
        u32::MAX as int
    } else {
        x
    }
}

/// The tile of one glyph in a font's glyph grid: glyph cells are laid
/// out in rows of `columns`, each cell two tile-widths wide, indexed by
/// code point.  Coordinates saturate at the pixel range instead of
/// wrapping.
pub open spec fn spec_glyph_tile(fd: FontData, c: char) -> Tile {
    let idx = (c as u32) as int;
    let row = idx / (fd.columns as int);
    let col = idx % (fd.columns as int);
    let sx = sat_u32(col * (2 * fd.tile_width as int));
    let sy = sat_u32(row * (fd.tile_height as int));
    Tile {
        start_x: sx as u32,
        start_y: sy as u32,
        end_x: sat_u32(sx + 2 * fd.tile_width as int) as u32,
        end_y: sat_u32(sy + fd.tile_height as int) as u32,
    }
}

proof fn lemma_u32_mul_fits(a: int, b: int)
    requires
        0 <= a <= u32::MAX as int,
        0 <= b <= 2 * u32::MAX as int,
    ensures
        0 <= a * b <= (u32::MAX as int) * (2 * u32::MAX as int),
{
    assert(0 <= a * b <= (u32::MAX as int) * (2 * u32::MAX as int)) by (nonlinear_arith)
        requires
            0 <= a <= u32::MAX as int,
            0 <= b <= 2 * u32::MAX as int,
    ;
}

/// Look up a glyph's tile.
pub fn glyph_tile(fd: &FontData, c: char) -> (r: Tile)
    requires
        fd.wf(),
    ensures
        r == spec_glyph_tile(*fd, c),
{
    let idx: u32 = c as u32;
    let row: u32 = idx / fd.columns;
    let col: u32 = idx % fd.columns;
    proof {
        lemma_u32_mul_fits(col as int, 2 * fd.tile_width as int);
        lemma_u32_mul_fits(row as int, fd.tile_height as int);
    }
    let sx128: u128 = (col as u128) * (2 * fd.tile_width as u128);
    let sx: u32 = if sx128 > u32::MAX as u128 {
        u32::MAX
    } else {
        sx128 as u32
    };
    let sy128: u128 = (row as u128) * (fd.tile_height as u128);
    let sy: u32 = if sy128 > u32::MAX as u128 {
        u32::MAX
    } else {
        sy128 as u32
    };
    let ex128: u128 = (sx as u128) + 2 * (fd.tile_width as u128);
    let ex: u32 = if ex128 > u32::MAX as u128 {
        u32::MAX
    } else {
        ex128 as u32
    };
    let ey128: u128 = (sy as u128) + (fd.tile_height as u128);
    let ey: u32 = if ey128 > u32::MAX as u128 {
        u32::MAX
    } else {
        ey128 as u32
    };
    Tile { start_x: sx, start_y: sy, end_x: ex, end_y: ey }
}

/// Everything constant over one text node's glyph run.
#[derive(Clone, Copy, PartialEq, Eq, Structural, Debug)]
pub struct TextCfg {
    /// Where each row of glyphs starts.
    pub start_x: i64,
    /// One character column's width (never negative).
    pub char_w: i64,
    /// A character's height (never negative).
    pub char_h: i64,
    /// How far each new row moves down.
    pub line_h: i64,
    /// Where a row of glyphs wraps.
    pub max_width: i64,
    pub z: i64,
    pub color: ColorRgb,
    pub sheet: Handle,
}

impl TextCfg {
    pub open spec fn wf(&self) -> bool {
        &&& in_range(self.start_x as int)
        &&& 0 <= self.char_w <= MAX_COORD
        &&& 0 <= self.char_h <= MAX_COORD
        &&& in_range(self.line_h as int)
        &&& in_range(self.max_width as int)
        &&& 0 <= self.z <= MAX_COORD
    }
}

/// Whether a cluster ends the line: it holds a newline or carriage
/// return (control characters always form their own clusters).
pub open spec fn spec_is_break(g: Seq<char>) -> bool {
    exists|i: int| 0 <= i < g.len() && ((g[i]) == '\n' || (g[i]) == '\r')
}

/// A cluster's width in columns: the widest of its characters, after
/// unsupported ones are replaced.
pub open spec fn spec_cluster_width(g: Seq<char>, sup: BitmapFontSupported) -> int
    decreases g.len(),
{
    if g.len() == 0 {
        0
    } else {
        let rest = spec_cluster_width(g.drop_last(), sup);
        let w = spec_char_width(sup.spec_replace(g.last()));
        if rest >= w {
            rest
        } else {
            w
        }
    }
}

/// One glyph record: a double-width cell at the cursor, showing the
/// character's tile in the text's color.
pub open spec fn spec_glyph(c: char, fd: FontData, cfg: TextCfg, x: int, y: int) -> Instance {
    Instance {
        sheet: cfg.sheet,
        location: RealLocation {
            position: RealPosition { x: x as i64, y: y as i64 },
            size: RealSize {
                width: clamped(cfg.char_w + cfg.char_w) as i64,
                height: cfg.char_h,
            },
            z_index: cfg.z,
        },
        uv_width: SCALE,
        uv_height: SCALE,
        tile: spec_glyph_tile(fd, fd.supported.spec_replace(c)),
        palette: 0,
        color: cfg.color,
    }
}

/// The glyphs of one cluster, all in the same cell.
pub open spec fn spec_cluster_glyphs(
    g: Seq<char>,
    fd: FontData,
    cfg: TextCfg,
    x: int,
    y: int,
) -> Seq<Instance> {
    Seq::new(g.len(), |i: int| spec_glyph(g[i], fd, cfg, x, y))
}

/// One cluster's effect on the run: a break cluster starts a new row;
/// any other advances the cursor by the cluster's width, wrapping first
/// when it would run past the row and is not alone on it.
pub open spec fn spec_cluster_step(g: Seq<char>, fd: FontData, cfg: TextCfg, w: int, y: int) -> (
    Seq<Instance>,
    int,
    int,
) {
    if g.len() == 0 {
        (Seq::empty(), w, y)
    } else if spec_is_break(g) {
        (Seq::empty(), 0, clamped(y + cfg.line_h))
    } else {
        let uw = spec_cluster_width(g, fd.supported);
        let disp = if uw == 0 {
            2
        } else {
            uw
        };
        let mcw = muldiv(disp, cfg.char_w as int, 1);
        let w1 = clamped(w + mcw);
        let wrapped = w1 > mcw && w1 > cfg.max_width as int;
        let w2 = if wrapped {
            mcw
        } else {
            w1
        };
        let y2 = if wrapped {
            clamped(y + cfg.line_h)
        } else {
            y
        };
        let x = clamped(cfg.start_x + clamped(w2 - mcw));
        (spec_cluster_glyphs(g, fd, cfg, x, y2), w2, y2)
    }
}

/// The glyphs of a whole run of clusters, threading the cursor through.
pub open spec fn spec_text_run(
    gs: Seq<Seq<char>>,
    fd: FontData,
    cfg: TextCfg,
    w: int,
    y: int,
) -> Seq<Instance>
    decreases gs.len(),
{
    if gs.len() == 0 {
        Seq::empty()
    } else {
        let s = spec_cluster_step(gs[0], fd, cfg, w, y);
        s.0 + spec_text_run(gs.drop_first(), fd, cfg, s.1, s.2)
    }
}

/// The run configuration a text node resolves to inside its rectangle.
pub open spec fn spec_text_cfg(
    t: BitmapText,
    this: RealLocation,
    small: RealSize,
    screen: ScreenSize,
) -> TextCfg {
    let cs = t.char_size->Some_0;
    let pw = this.size.width as int;
    let ph = this.size.height as int;
    let sw = small.width as int;
    let sh = small.height as int;
    let char_w = sub_size(spec_resolve(cs.width, Axis::Horizontal, pw, ph, sw, sh, screen), 0);
    let char_h = sub_size(spec_resolve(cs.height, Axis::Vertical, pw, ph, sw, sh, screen), 0);
    let ls = spec_resolve(t.line_spacing, Axis::Vertical, pw, ph, sw, sh, screen);
    TextCfg {
        start_x: this.position.x,
        char_w: char_w as i64,
        char_h: char_h as i64,
        line_h: clamped(char_h + ls) as i64,
        max_width: this.size.width,
        z: this.z_index,
        color: t.text_color,
        sheet: t.font->Some_0.handle,
    }
}

/// Every glyph a text node draws inside its resolved rectangle.
pub open spec fn spec_text_instances(
    t: BitmapText,
    fd: FontData,
    this: RealLocation,
    small: RealSize,
    screen: ScreenSize,
) -> Seq<Instance> {
    let cfg = spec_text_cfg(t, this, small, screen);
    spec_text_run(graphemes_of(t.text@), fd, cfg, 0, this.position.y as int)
}

/// Whether a cluster holds a line break.
fn is_break(g: &str) -> (r: bool)
    ensures
        r == spec_is_break(g@),
{
    let n = g.unicode_len();
    let mut i: usize = 0;
    while i < n
        invariant
            n == g@.len(),
            0 <= i <= n,
            forall|j: int| 0 <= j < i ==> (g@[j]) != '\n' && (g@[j]) != '\r',
        decreases n - i,
    {
        let c = g.get_char(i);
        if c == '\n' || c == '\r' {
            return true;
        }
        i = i + 1;
    }
    false
}

/// A cluster's width in columns.
fn cluster_width(g: &str, sup: &BitmapFontSupported) -> (r: u32)
    ensures
        r as int == spec_cluster_width(g@, *sup),
        r <= 3,
{
    let n = g.unicode_len();
    let mut acc: u32 = 0;
    let mut i: usize = 0;
    proof {
        assert(g@.take(0) =~= Seq::<char>::empty());
    }
    while i < n
        invariant
            n == g@.len(),
            0 <= i <= n,
            acc as int == spec_cluster_width(g@.take(i as int), *sup),
            acc <= 3,
        decreases n - i,
    {
        proof {
            assert(g@.take(i + 1 as int).drop_last() =~= g@.take(i as int));
            assert(g@.take(i + 1 as int).last() == g@[i as int]);
        }
        let c = g.get_char(i);
        let w = char_width(sup.replace(c));
        if w > acc {
            acc = w;
        }
        i = i + 1;
    }
    proof {
        assert(g@.take(n as int) =~= g@);
    }
    acc
}

/// Build one glyph record.
fn glyph(c: char, fd: &FontData, cfg: &TextCfg, x: i64, y: i64) -> (r: Instance)
    requires
        fd.wf(),
        cfg.wf(),
        in_range(x as int),
        in_range(y as int),
    ensures
        r == spec_glyph(c, *fd, *cfg, x as int, y as int),
        r.wf(),
{
    let cell_w = add_sat(cfg.char_w, cfg.char_w);
    Instance {
        sheet: cfg.sheet,
        location: RealLocation {
            position: RealPosition { x, y },
            size: RealSize { width: cell_w, height: cfg.char_h },
            z_index: cfg.z,
        },
        uv_width: SCALE,
        uv_height: SCALE,
        tile: glyph_tile(fd, fd.supported.replace(c)),
        palette: 0,
        color: cfg.color,
    }
}

/// Lay out one cluster, appending its glyphs and moving the cursor.
fn cluster_step(g: &str, fd: &FontData, cfg: &TextCfg, w: i64, y: i64, out: &mut Vec<Instance>) -> (r: (i64, i64))
    requires
        fd.wf(),
        cfg.wf(),
        in_range(w as int),
        in_range(y as int),
    ensures
        ({
            let s = spec_cluster_step(g@, *fd, *cfg, w as int, y as int);
            &&& final(out)@ == old(out)@ + s.0
            &&& r.0 as int == s.1
            &&& r.1 as int == s.2
            &&& in_range(r.0 as int)
            &&& in_range(r.1 as int)
        }),
{
    let n = g.unicode_len();
    if n == 0 {
        proof {
            assert(old(out)@ + Seq::<Instance>::empty() =~= old(out)@);
        }
        return (w, y);
    }
    if is_break(g) {
        proof {
            assert(old(out)@ + Seq::<Instance>::empty() =~= old(out)@);
        }
        return (0, add_sat(y, cfg.line_h));
    }
    let uw = cluster_width(g, &fd.supported);
    let disp: u32 = if uw == 0 {
        2
    } else {
        uw
    };
    let mcw = mul_div(disp as i64, cfg.char_w, 1);
    let w1 = add_sat(w, mcw);
    let wrapped = w1 > mcw && w1 > cfg.max_width;
    let w2 = if wrapped {
        mcw
    } else {
        w1
    };
    let y2 = if wrapped {
        add_sat(y, cfg.line_h)
    } else {
        y
    };
    let x = add_sat(cfg.start_x, sub_sat2(w2, mcw));
    let ghost out0 = out@;
    let mut i: usize = 0;
    while i < n
        invariant
            n == g@.len(),
            0 <= i <= n,
            fd.wf(),
            cfg.wf(),
            in_range(x as int),
            in_range(y2 as int),
            out@ == out0 + spec_cluster_glyphs(g@, *fd, *cfg, x as int, y2 as int).take(i as int),
        decreases n - i,
    {
        let c = g.get_char(i);
        let inst = glyph(c, fd, cfg, x, y2);
        out.push(inst);
        proof {
            let full = spec_cluster_glyphs(g@, *fd, *cfg, x as int, y2 as int);
            assert(full.take(i + 1 as int) =~= full.take(i as int).push(full[i as int]));
            assert(out0 + full.take(i as int).push(full[i as int]) =~= (out0 + full.take(
                i as int,
            )).push(full[i as int]));
        }
        i = i + 1;
    }
    proof {
        let full = spec_cluster_glyphs(g@, *fd, *cfg, x as int, y2 as int);
        assert(full.take(n as int) =~= full);
    }
    (w2, y2)
}

/// Every glyph a text node draws: clusters are placed left to right,
/// wrapping into a new row when one would run past the node's width,
/// and break clusters start a new row.
pub fn text_instances(t: &BitmapText, fd: &FontData, this: &RealLocation, small: &RealSize, screen: &ScreenSize) -> (out: Vec<Instance>)
    requires
        t.wf(),
        t.font is Some,
        t.char_size is Some,
        fd.wf(),
        this.wf(),
        small.wf(),
        screen.wf(),
    ensures
        out@ == spec_text_instances(*t, *fd, *this, *small, *screen),
{
    let cs = t.char_size.as_ref().unwrap();
    let char_w = sub_clamp0(
        resolve(
            cs.width,
            Axis::Horizontal,
            this.size.width,
            this.size.height,
            small.width,
            small.height,
            screen,
        ),
        0,
    );
    let char_h = sub_clamp0(
        resolve(
            cs.height,
            Axis::Vertical,
            this.size.width,
            this.size.height,
            small.width,
            small.height,
            screen,
        ),
        0,
    );
    let ls = resolve(
        t.line_spacing,
        Axis::Vertical,
        this.size.width,
        this.size.height,
        small.width,
        small.height,
        screen,
    );
    let cfg = TextCfg {
        start_x: this.position.x,
        char_w,
        char_h,
        line_h: add_sat(char_h, ls),
        max_width: this.size.width,
        z: this.z_index,
        color: t.text_color,
        sheet: t.font.as_ref().unwrap().handle,
    };
    let ghost gs = graphemes_of(t.text@);
    let clusters = grapheme_clusters(t.text.as_str());
    let mut out: Vec<Instance> = Vec::new();
    let mut w: i64 = 0;
    let mut y: i64 = this.position.y;
    let n = clusters.len();
    let mut i: usize = 0;
    proof {
        assert(gs.skip(0) =~= gs);
        assert(Seq::<Instance>::empty() + spec_text_run(gs, *fd, cfg, 0, y as int)
            =~= spec_text_run(gs, *fd, cfg, 0, y as int));
    }
    while i < n
        invariant
            n == clusters@.len(),
            0 <= i <= n,
            fd.wf(),
            cfg.wf(),
            in_range(w as int),
            in_range(y as int),
            clusters@.map_values(|g: String| g@) == gs,
            out@ + spec_text_run(gs.skip(i as int), *fd, cfg, w as int, y as int)
                == spec_text_run(gs, *fd, cfg, 0, this.position.y as int),
        decreases n - i,
    {
        proof {
            assert(clusters@.map_values(|g: String| g@)[i as int] == clusters@[i as int]@);
            assert(gs.skip(i as int)[0] == gs[i as int]);
            assert(gs.skip(i as int).drop_first() =~= gs.skip(i + 1));
        }
        let ghost out_before = out@;
        let (w2, y2) = cluster_step(clusters[i].as_str(), fd, &cfg, w, y, &mut out);
        proof {
            let s = spec_cluster_step(gs[i as int], *fd, cfg, w as int, y as int);
            let rest = spec_text_run(gs.skip(i + 1), *fd, cfg, s.1, s.2);
            assert((out_before + s.0) + rest =~= out_before + (s.0 + rest));
        }
        w = w2;
        y = y2;
        i = i + 1;
    }
    proof {
        assert(gs.skip(n as int) =~= Seq::<Seq<char>>::empty());
        assert(out@ + Seq::<Instance>::empty() =~= out@);
    }
    out
}

/// The lesser of a difference and the coordinate bound, never below the
/// negated bound.
fn sub_sat2(a: i64, b: i64) -> (r: i64)
    requires
        in_range(a as int),
        in_range(b as int),
    ensures
        r as int == clamped(a as int - b as int),
{
    crate::num::sub_sat(a, b)
}

} // verus!
