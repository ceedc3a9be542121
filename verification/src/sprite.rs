//! Sprite leaves: tiles, tile repetition, and the sprite node payload.

use vstd::prelude::*;
use crate::num::{clamp_coord, clamped, in_range, mul_div, muldiv, MAX_COORD, SCALE};
use crate::length::{resolve, spec_resolve, Axis, Length, ScreenSize};
use crate::space::{RealSize};
use crate::registry::Handle;

verus! {

/// The rectangle of a spritesheet to display, in pixel coordinates.
/// Start may exceed end: that mirrors the tile on that axis.
#[derive(Clone, Copy, PartialEq, Eq, Structural, Debug)]
pub struct Tile {
    pub start_x: u32,
    pub start_y: u32,
    pub end_x: u32,
    pub end_y: u32,
}

impl Tile {
    /// The tile flipped horizontally.
    pub fn mirror_x(self) -> (r: Tile)
        ensures
            r == (Tile {
                start_x: self.end_x,
                start_y: self.start_y,
                end_x: self.start_x,
                end_y: self.end_y,
            }),
    {
        Tile { start_x: self.end_x, start_y: self.start_y, end_x: self.start_x, end_y: self.end_y }
    }

    /// The tile flipped vertically.
    pub fn mirror_y(self) -> (r: Tile)
        ensures
            r == (Tile {
                start_x: self.start_x,
                start_y: self.end_y,
                end_x: self.end_x,
                end_y: self.start_y,
            }),
    {
        Tile { start_x: self.start_x, start_y: self.end_y, end_x: self.end_x, end_y: self.start_y }
    }

    pub fn zero() -> (r: Tile)
        ensures
            r == (Tile { start_x: 0, start_y: 0, end_x: 0, end_y: 0 }),
    {
        Tile { start_x: 0, start_y: 0, end_x: 0, end_y: 0 }
    }
}

/// How a sprite's tile repeats along one axis.
#[derive(Clone, Copy, PartialEq, Eq, Structural, Debug)]
pub enum Repeat {
    /// No repetition: the tile stretches over the whole sprite.
    Stretch,
    /// One repetition per resolved length.
    Length(Length),
    /// A fixed-point repetition count.
    Count(i64),
}

impl Repeat {
    pub open spec fn wf(&self) -> bool {
        match *self {
            Repeat::Stretch => true,
            Repeat::Length(l) => l.wf(),
            Repeat::Count(c) => in_range(c as int),
        }
    }

    pub fn check_wf(&self) -> (r: bool)
        ensures
            r == self.wf(),
    {
        match *self {
            Repeat::Stretch => true,
            Repeat::Length(l) => l.check_wf(),
            Repeat::Count(c) => -MAX_COORD <= c && c <= MAX_COORD,
        }
    }
}

impl Default for Repeat {
    /// No repetition.
    fn default() -> (r: Repeat)
        ensures
            r == Repeat::Stretch,
    {
        Repeat::Stretch
    }
}

/// The division of a distance by a repeat length, as a fixed-point factor.
/// A zero length saturates to the coordinate bound rather than dividing.
pub open spec fn spec_uv_div(distance: int, len: int) -> int {
    if len == 0 {
        MAX_COORD as int
    } else if len > 0 {
        muldiv(distance, SCALE as int, len)
    } else {
        -muldiv(distance, SCALE as int, -len)
    }
}

/// The texture-coordinate factor of one axis: how many times the tile
/// repeats over the sprite's extent `distance` on that axis.
pub open spec fn spec_repeat_uv(
    rep: Repeat,
    axis: Axis,
    parent: RealSize,
    smallest: RealSize,
    screen: ScreenSize,
    distance: int,
) -> int {
    match rep {
        Repeat::Stretch => SCALE as int,
        Repeat::Length(len) => spec_uv_div(
            distance,
            spec_resolve(
                len,
                axis,
                parent.width as int,
                parent.height as int,
                smallest.width as int,
                smallest.height as int,
                screen,
            ),
        ),
        Repeat::Count(c) => clamped(c as int),
    }
}

/// Resolve the repeat factor of one axis.
pub fn repeat_uv(
    rep: Repeat,
    axis: Axis,
    parent: &RealSize,
    smallest: &RealSize,
    screen: &ScreenSize,
    distance: i64,
) -> (r: i64)
    requires
        rep.wf(),
        parent.wf(),
        smallest.wf(),
        screen.wf(),
        0 <= distance <= MAX_COORD,
    ensures
        r as int == spec_repeat_uv(rep, axis, *parent, *smallest, *screen, distance as int),
        in_range(r as int),
{
    match rep {
        Repeat::Stretch => SCALE,
        Repeat::Length(len) => {
            let l = resolve(
                len,
                axis,
                parent.width,
                parent.height,
                smallest.width,
                smallest.height,
                screen,
            );
            if l == 0 {
                MAX_COORD
            } else if l > 0 {
                mul_div(distance, SCALE, l)
            } else {
                -mul_div(distance, SCALE, -l)
            }
        },
        Repeat::Count(c) => clamp_coord(c),
    }
}

/// Tile repetition for both axes of a sprite.
#[derive(Clone, Copy, PartialEq, Eq, Structural, Debug)]
pub struct RepeatTile {
    pub width: Repeat,
    pub height: Repeat,
}

impl RepeatTile {
    pub open spec fn wf(&self) -> bool {
        self.width.wf() && self.height.wf()
    }

    pub fn check_wf(&self) -> (r: bool)
        ensures
            r == self.wf(),
    {
        self.width.check_wf() && self.height.check_wf()
    }

    pub fn none() -> (r: RepeatTile)
        ensures
            r == (RepeatTile { width: Repeat::Stretch, height: Repeat::Stretch }),
    {
        RepeatTile { width: Repeat::Stretch, height: Repeat::Stretch }
    }
}

impl Default for RepeatTile {
    /// No repetition on either axis.
    fn default() -> (r: RepeatTile)
        ensures
            r == (RepeatTile { width: Repeat::Stretch, height: Repeat::Stretch }),
    {
        RepeatTile { width: Repeat::Stretch, height: Repeat::Stretch }
    }
}

/// A handle to a texture owned by the renderer.
#[derive(Clone, Copy, PartialEq, Eq, Structural, Debug)]
pub struct Texture {
    pub handle: Handle,
}

impl Texture {
    /// Callers pick the identity; two textures are the same asset exactly
    /// when their handles are equal.
    pub fn new(handle: Handle) -> (r: Texture)
        ensures
            r == (Texture { handle }),
    {
        Texture { handle }
    }
}

/// A handle to a loaded spritesheet.
#[derive(Clone, Copy, PartialEq, Eq, Structural, Debug)]
pub struct Spritesheet {
    pub handle: Handle,
}

impl Spritesheet {
    /// Callers pick the identity; two spritesheets are the same asset
    /// exactly when their handles are equal.
    pub fn new(handle: Handle) -> (r: Spritesheet)
        ensures
            r == (Spritesheet { handle }),
    {
        Spritesheet { handle }
    }
}

/// What a spritesheet is made of: its texture, and an optional palette
/// texture for palette-indexed sheets.
#[derive(Clone, Copy, PartialEq, Eq, Structural, Debug)]
pub struct SpritesheetSettings {
    pub texture: Texture,
    pub palette: Option<Texture>,
}

/// The renderer-side record of a loaded spritesheet: its texture and,
/// for palette-indexed sheets, the palette texture.
#[derive(Clone, Copy, PartialEq, Eq, Structural, Debug)]
pub struct SheetData {
    pub texture: Handle,
    pub palette: Option<Handle>,
}

/// The sprite leaf payload: which sheet and tile to draw, how the tile
/// repeats, and which palette row to use.
#[derive(Clone, PartialEq, Eq, Structural, Debug)]
pub struct Sprite {
    pub spritesheet: Option<Spritesheet>,
    pub tile: Tile,
    pub repeat_tile: RepeatTile,
    pub palette: u32,
}

impl Sprite {
    pub open spec fn wf(&self) -> bool {
        self.repeat_tile.wf()
    }

    pub fn check_wf(&self) -> (r: bool)
        ensures
            r == self.wf(),
    {
        self.repeat_tile.check_wf()
    }

    /// A sprite with no sheet yet, showing the zero tile.
    pub fn new() -> (r: Sprite)
        ensures
            r == (Sprite {
                spritesheet: None,
                tile: (Tile { start_x: 0, start_y: 0, end_x: 0, end_y: 0 }),
                repeat_tile: (RepeatTile { width: Repeat::Stretch, height: Repeat::Stretch }),
                palette: 0,
            }),
            r.wf(),
    {
        Sprite {
            spritesheet: None,
            tile: Tile { start_x: 0, start_y: 0, end_x: 0, end_y: 0 },
            repeat_tile: RepeatTile { width: Repeat::Stretch, height: Repeat::Stretch },
            palette: 0,
        }
    }
}

} // verus!
