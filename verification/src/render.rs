//! The records a frame hands to the renderer.

use vstd::prelude::*;
use crate::num::{in_range, MAX_COORD, SCALE};
use crate::registry::Handle;
use crate::space::{RealLocation, RealPosition, RealSize};
use crate::sprite::Tile;
use crate::text::ColorRgb;

verus! {

/// One draw record: a rectangle of one spritesheet (or font sheet)
/// drawn at a resolved location.  Palette-indexed sheets read `palette`;
/// glyph sheets read `color`; plain sheets read neither.
#[derive(Clone, Copy, PartialEq, Eq, Structural, Debug)]
pub struct Instance {
    /// The spritesheet or font the tile comes from.
    pub sheet: Handle,
    pub location: RealLocation,
    /// Tile repetition factors, fixed-point (`SCALE` means drawn once).
    pub uv_width: i64,
    pub uv_height: i64,
    pub tile: Tile,
    pub palette: u32,
    pub color: ColorRgb,
}

impl Instance {
    pub open spec fn wf(&self) -> bool {
        self.location.wf() && in_range(self.uv_width as int) && in_range(self.uv_height as int)
    }
}

/// One leaf that drew during the last full layout: where it sits in the
/// tree, and its cached geometry.  The render-only path rebuilds the
/// leaf's draw records from this entry and the node's current
/// properties, without running layout again.
#[derive(Debug)]
pub struct RenderEntry {
    /// Child indices from the root down to the leaf.
    pub path: Vec<usize>,
    pub location: RealLocation,
    pub uv_width: i64,
    pub uv_height: i64,
}

impl RenderEntry {
    pub open spec fn wf(&self) -> bool {
        self.location.wf() && in_range(self.uv_width as int) && in_range(self.uv_height as int)
    }
}

/// The view of a render entry: its path and cached geometry.
pub open spec fn re_view(e: RenderEntry) -> (Seq<usize>, RealLocation, i64, i64) {
    (e.path@, e.location, e.uv_width, e.uv_height)
}

/// The views of a whole rendered-leaf list.
pub open spec fn re_views(s: Seq<RenderEntry>) -> Seq<(Seq<usize>, RealLocation, i64, i64)> {
    s.map_values(|e: RenderEntry| re_view(e))
}

} // verus!
