//! Declared lengths and their resolution into screen-space fractions.

use vstd::prelude::*;
use crate::num::{clamp_coord, clamped, in_range, mul_div, muldiv, px_frac, scale_mul, MAX_COORD, SCALE};

verus! {

/// The axis a length is being resolved on.
#[derive(Clone, Copy, PartialEq, Eq, Structural, Debug)]
pub enum Axis {
    Horizontal,
    Vertical,
}

/// Screen extent in pixels, supplied by the host once per frame.
#[derive(Clone, Copy, PartialEq, Eq, Structural, Debug)]
pub struct ScreenSize {
    pub width: u32,
    pub height: u32,
}

impl ScreenSize {
    /// A screen has at least one pixel on each axis.
    pub open spec fn wf(&self) -> bool {
        self.width >= 1 && self.height >= 1
    }

    pub fn new(width: u32, height: u32) -> (r: ScreenSize)
        requires
            width >= 1,
            height >= 1,
        ensures
            r.wf(),
            r.width == width,
            r.height == height,
    {
        ScreenSize { width, height }
    }

    /// The pixel extent of one axis.
    pub open spec fn spec_pixels(&self, axis: Axis) -> int {
        match axis {
            Axis::Horizontal => self.width as int,
            Axis::Vertical => self.height as int,
        }
    }

    fn pixels(&self, axis: Axis) -> (r: u32)
        ensures
            r as int == self.spec_pixels(axis),
    {
        match axis {
            Axis::Horizontal => self.width,
            Axis::Vertical => self.height,
        }
    }
}

/// A declared length, as written by the user of the scene graph.
///
/// Fractions are fixed-point: a field of `SCALE` means a factor of one.
#[derive(Clone, Copy, PartialEq, Eq, Structural, Debug)]
pub enum Length {
    /// Zero length.
    Zero,
    /// A length in pixels.
    Px(i32),
    /// A fraction of the screen's width, whichever axis it stands on.
    ScreenWidth(i64),
    /// A fraction of the screen's height, whichever axis it stands on.
    ScreenHeight(i64),
    /// A fraction of the parent's resolved width.
    ParentWidth(i64),
    /// A fraction of the parent's resolved height.
    ParentHeight(i64),
    /// A fraction of this node's own smallest (measured) width.
    SmallestWidth(i64),
    /// A fraction of this node's own smallest (measured) height.
    SmallestHeight(i64),
}

impl Length {
    /// Declared fractions must lie in the saturation range.
    pub open spec fn wf(&self) -> bool {
        match *self {
            Length::Zero => true,
            Length::Px(_) => true,
            Length::ScreenWidth(f) => in_range(f as int),
            Length::ScreenHeight(f) => in_range(f as int),
            Length::ParentWidth(f) => in_range(f as int),
            Length::ParentHeight(f) => in_range(f as int),
            Length::SmallestWidth(f) => in_range(f as int),
            Length::SmallestHeight(f) => in_range(f as int),
        }
    }

    /// Whether the length resolves without looking at parent or content:
    /// pixel and screen-fraction lengths do, the rest do not.
    pub open spec fn spec_is_fixed(&self) -> bool {
        match *self {
            Length::Zero => true,
            Length::Px(_) => true,
            Length::ScreenWidth(_) => true,
            Length::ScreenHeight(_) => true,
            Length::ParentWidth(_) => false,
            Length::ParentHeight(_) => false,
            Length::SmallestWidth(_) => false,
            Length::SmallestHeight(_) => false,
        }
    }

    pub fn is_fixed(&self) -> (r: bool)
        ensures
            r == self.spec_is_fixed(),
    {
        match *self {
            Length::Zero => true,
            Length::Px(_) => true,
            Length::ScreenWidth(_) => true,
            Length::ScreenHeight(_) => true,
            Length::ParentWidth(_) => false,
            Length::ParentHeight(_) => false,
            Length::SmallestWidth(_) => false,
            Length::SmallestHeight(_) => false,
        }
    }

    pub fn check_wf(&self) -> (r: bool)
        ensures
            r == self.wf(),
    {
        match *self {
            Length::Zero => true,
            Length::Px(_) => true,
            Length::ScreenWidth(f) => -MAX_COORD <= f && f <= MAX_COORD,
            Length::ScreenHeight(f) => -MAX_COORD <= f && f <= MAX_COORD,
            Length::ParentWidth(f) => -MAX_COORD <= f && f <= MAX_COORD,
            Length::ParentHeight(f) => -MAX_COORD <= f && f <= MAX_COORD,
            Length::SmallestWidth(f) => -MAX_COORD <= f && f <= MAX_COORD,
            Length::SmallestHeight(f) => -MAX_COORD <= f && f <= MAX_COORD,
        }
    }
}

impl Default for Length {
    /// The default length is zero.
    fn default() -> (r: Length)
        ensures
            r == Length::Zero,
    {
        Length::Zero
    }
}

/// The value of a length in screen space on one axis, given the parent's
/// resolved extents, this node's own smallest (measured) extents, and the
/// screen.  Pixel lengths divide by the axis's pixel extent; a
/// screen-fraction on the other axis is corrected by the pixel aspect ratio.
pub open spec fn spec_resolve(
    len: Length,
    axis: Axis,
    parent_w: int,
    parent_h: int,
    small_w: int,
    small_h: int,
    screen: ScreenSize,
) -> int {
    match len {
        Length::Zero => 0,
        Length::Px(n) => px_frac(n as int, screen.spec_pixels(axis)),
        Length::ScreenWidth(f) => match axis {
            Axis::Horizontal => clamped(f as int),
            Axis::Vertical => muldiv(f as int, screen.width as int, screen.height as int),
        },
        Length::ScreenHeight(f) => match axis {
            Axis::Horizontal => muldiv(f as int, screen.height as int, screen.width as int),
            Axis::Vertical => clamped(f as int),
        },
        Length::ParentWidth(f) => scale_mul(parent_w, f as int),
        Length::ParentHeight(f) => scale_mul(parent_h, f as int),
        Length::SmallestWidth(f) => scale_mul(small_w, f as int),
        Length::SmallestHeight(f) => scale_mul(small_h, f as int),
    }
}

/// Resolve a declared length on one axis.
pub fn resolve(
    len: Length,
    axis: Axis,
    parent_w: i64,
    parent_h: i64,
    small_w: i64,
    small_h: i64,
    screen: &ScreenSize,
) -> (r: i64)
    requires
        len.wf(),
        screen.wf(),
        in_range(parent_w as int),
        in_range(parent_h as int),
        in_range(small_w as int),
        in_range(small_h as int),
    ensures
        r as int == spec_resolve(
            len,
            axis,
            parent_w as int,
            parent_h as int,
            small_w as int,
            small_h as int,
            *screen,
        ),
        in_range(r as int),
{
    match len {
        Length::Zero => 0,
        Length::Px(n) => mul_div(n as i64, SCALE, screen.pixels(axis) as i64),
        Length::ScreenWidth(f) => match axis {
            Axis::Horizontal => clamp_coord(f),
            Axis::Vertical => mul_div(f, screen.width as i64, screen.height as i64),
        },
        Length::ScreenHeight(f) => match axis {
            Axis::Horizontal => mul_div(f, screen.height as i64, screen.width as i64),
            Axis::Vertical => clamp_coord(f),
        },
        Length::ParentWidth(f) => mul_div(parent_w, f, SCALE),
        Length::ParentHeight(f) => mul_div(parent_h, f, SCALE),
        Length::SmallestWidth(f) => mul_div(small_w, f, SCALE),
        Length::SmallestHeight(f) => mul_div(small_h, f, SCALE),
    }
}

} // verus!
