//! Computed screen-space geometry, and the declared placement of a node
//! relative to its parent.

use vstd::prelude::*;
use crate::num::{add_sat, clamped, in_range, sub_clamp0, sub_sat, sub_size, mul_div, scale_mul, MAX_COORD, SCALE};
use crate::length::{resolve, spec_resolve, Axis, Length, ScreenSize};

verus! {

/// A resolved position in normalized screen space.
#[derive(Clone, Copy, PartialEq, Eq, Structural, Debug)]
pub struct RealPosition {
    pub x: i64,
    pub y: i64,
}

impl RealPosition {
    pub open spec fn wf(&self) -> bool {
        in_range(self.x as int) && in_range(self.y as int)
    }

    pub fn zero() -> (r: RealPosition)
        ensures
            r.wf(),
            r.x == 0 && r.y == 0,
    {
        RealPosition { x: 0, y: 0 }
    }
}

/// A resolved extent in normalized screen space; never negative.
#[derive(Clone, Copy, PartialEq, Eq, Structural, Debug)]
pub struct RealSize {
    pub width: i64,
    pub height: i64,
}

impl RealSize {
    pub open spec fn wf(&self) -> bool {
        0 <= self.width <= MAX_COORD && 0 <= self.height <= MAX_COORD
    }

    pub fn zero() -> (r: RealSize)
        ensures
            r.wf(),
            r.width == 0 && r.height == 0,
    {
        RealSize { width: 0, height: 0 }
    }

    /// The extent of one axis.
    pub open spec fn spec_axis(&self, axis: Axis) -> int {
        match axis {
            Axis::Horizontal => self.width as int,
            Axis::Vertical => self.height as int,
        }
    }
}

/// Resolved padding, one screen-space value per side.
#[derive(Clone, Copy, PartialEq, Eq, Structural, Debug)]
pub struct RealPadding {
    pub up: i64,
    pub down: i64,
    pub left: i64,
    pub right: i64,
}

impl RealPadding {
    pub open spec fn wf(&self) -> bool {
        in_range(self.up as int) && in_range(self.down as int) && in_range(self.left as int)
            && in_range(self.right as int)
    }
}

/// A node's fully resolved rectangle and stacking index.
#[derive(Clone, Copy, PartialEq, Eq, Structural, Debug)]
pub struct RealLocation {
    pub position: RealPosition,
    pub size: RealSize,
    pub z_index: i64,
}

impl RealLocation {
    pub open spec fn wf(&self) -> bool {
        self.position.wf() && self.size.wf() && 0 <= self.z_index <= MAX_COORD
    }

    pub fn check_wf(&self) -> (r: bool)
        ensures
            r == self.wf(),
    {
        -MAX_COORD <= self.position.x && self.position.x <= MAX_COORD && -MAX_COORD
            <= self.position.y && self.position.y <= MAX_COORD && 0 <= self.size.width
            && self.size.width <= MAX_COORD && 0 <= self.size.height && self.size.height
            <= MAX_COORD && 0 <= self.z_index && self.z_index <= MAX_COORD
    }

    /// The rectangle covering the whole screen, at the base stacking index.
    pub fn full() -> (r: RealLocation)
        ensures
            r.wf(),
            r == RealLocation::spec_full(),
    {
        RealLocation {
            position: RealPosition { x: 0, y: 0 },
            size: RealSize { width: SCALE, height: SCALE },
            z_index: SCALE,
        }
    }

    pub open spec fn spec_full() -> RealLocation {
        RealLocation {
            position: RealPosition { x: 0, y: 0 },
            size: RealSize { width: SCALE, height: SCALE },
            z_index: SCALE,
        }
    }
}

/// Offset added to the node's position, relative to the parent.
#[derive(Clone, Copy, PartialEq, Eq, Structural, Debug)]
pub struct Offset {
    pub x: Length,
    pub y: Length,
}

impl Offset {
    pub open spec fn wf(&self) -> bool {
        self.x.wf() && self.y.wf()
    }

    pub fn check_wf(&self) -> (r: bool)
        ensures
            r == self.wf(),
    {
        self.x.check_wf() && self.y.check_wf()
    }

    pub fn zero() -> (r: Offset)
        ensures
            r.wf(),
            r == (Offset { x: Length::Zero, y: Length::Zero }),
    {
        Offset { x: Length::Zero, y: Length::Zero }
    }
}

impl Default for Offset {
    /// No offset.
    fn default() -> (r: Offset)
        ensures
            r == (Offset { x: Length::Zero, y: Length::Zero }),
    {
        Offset { x: Length::Zero, y: Length::Zero }
    }
}

/// Declared width and height, relative to the parent space.
#[derive(Clone, Copy, PartialEq, Eq, Structural, Debug)]
pub struct Size {
    pub width: Length,
    pub height: Length,
}

impl Size {
    pub open spec fn wf(&self) -> bool {
        self.width.wf() && self.height.wf()
    }

    pub fn check_wf(&self) -> (r: bool)
        ensures
            r == self.wf(),
    {
        self.width.check_wf() && self.height.check_wf()
    }
}

impl Default for Size {
    /// The full parent extent on both axes.
    fn default() -> (r: Size)
        ensures
            r == (Size { width: Length::ParentWidth(SCALE), height: Length::ParentHeight(SCALE) }),
    {
        Size { width: Length::ParentWidth(SCALE), height: Length::ParentHeight(SCALE) }
    }
}

/// Empty space around a node's content.  Padding never grows the node:
/// the space is taken out of the node's own size.
#[derive(Clone, Copy, PartialEq, Eq, Structural, Debug)]
pub struct Padding {
    pub up: Length,
    pub down: Length,
    pub left: Length,
    pub right: Length,
}

impl Padding {
    /// The same length on every side.
    pub fn all(length: Length) -> (r: Padding)
        ensures
            r == (Padding { up: length, down: length, left: length, right: length }),
    {
        Padding { up: length, down: length, left: length, right: length }
    }

    pub open spec fn wf(&self) -> bool {
        self.up.wf() && self.down.wf() && self.left.wf() && self.right.wf()
    }

    pub fn check_wf(&self) -> (r: bool)
        ensures
            r == self.wf(),
    {
        self.up.check_wf() && self.down.check_wf() && self.left.check_wf() && self.right.check_wf()
    }
}

impl Default for Padding {
    /// No padding.
    fn default() -> (r: Padding)
        ensures
            r == (Padding {
                up: Length::Zero,
                down: Length::Zero,
                left: Length::Zero,
                right: Length::Zero,
            }),
    {
        Padding { up: Length::Zero, down: Length::Zero, left: Length::Zero, right: Length::Zero }
    }
}

/// The anchor point inside the leftover parent space, as fixed-point
/// fractions: zero anchors at the upper-left corner, `SCALE` at the
/// lower-right.
#[derive(Clone, Copy, PartialEq, Eq, Structural, Debug)]
pub struct Origin {
    pub x: i64,
    pub y: i64,
}

impl Origin {
    pub open spec fn wf(&self) -> bool {
        in_range(self.x as int) && in_range(self.y as int)
    }

    pub fn check_wf(&self) -> (r: bool)
        ensures
            r == self.wf(),
    {
        -MAX_COORD <= self.x && self.x <= MAX_COORD && -MAX_COORD <= self.y && self.y <= MAX_COORD
    }
}

impl Default for Origin {
    /// Anchored at the upper-left corner.
    fn default() -> (r: Origin)
        ensures
            r == (Origin { x: 0, y: 0 }),
    {
        Origin { x: 0, y: 0 }
    }
}

/// The declared placement of a node relative to its parent.
#[derive(Clone, Copy, PartialEq, Eq, Structural, Debug)]
pub struct Location {
    pub offset: Offset,
    pub size: Size,
    pub padding: Padding,
    pub origin: Origin,
    /// Stacking index relative to the parent; never negative, so a child
    /// always draws at or above its parent.
    pub z_index: i64,
}

impl Location {
    pub open spec fn wf(&self) -> bool {
        self.offset.wf() && self.size.wf() && self.padding.wf() && self.origin.wf() && 0
            <= self.z_index <= MAX_COORD
    }

    pub fn check_wf(&self) -> (r: bool)
        ensures
            r == self.wf(),
    {
        self.offset.check_wf() && self.size.check_wf() && self.padding.check_wf()
            && self.origin.check_wf() && 0 <= self.z_index && self.z_index <= MAX_COORD
    }

    pub fn base() -> (r: Location)
        ensures
            r == Location::spec_base(),
            r.wf(),
    {
        Location {
            offset: Offset { x: Length::Zero, y: Length::Zero },
            size: Size { width: Length::ParentWidth(SCALE), height: Length::ParentHeight(SCALE) },
            padding: Padding {
                up: Length::Zero,
                down: Length::Zero,
                left: Length::Zero,
                right: Length::Zero,
            },
            origin: Origin { x: 0, y: 0 },
            z_index: 0,
        }
    }

    /// The default placement: same rectangle as the parent, no offset,
    /// no padding, same stacking index.
    pub open spec fn spec_base() -> Location {
        Location {
            offset: Offset { x: Length::Zero, y: Length::Zero },
            size: Size { width: Length::ParentWidth(SCALE), height: Length::ParentHeight(SCALE) },
            padding: Padding {
                up: Length::Zero,
                down: Length::Zero,
                left: Length::Zero,
                right: Length::Zero,
            },
            origin: Origin { x: 0, y: 0 },
            z_index: 0,
        }
    }
}

impl Default for Location {
    /// The default placement: same rectangle as the parent.
    fn default() -> (r: Location)
        ensures
            r == Location::spec_base(),
    {
        Location::base()
    }
}

/// The resolved interior rectangle of a node placed by `loc` inside
/// `parent`, given the node's own smallest (measured) size: the declared
/// size is resolved, the origin anchors the node in the leftover space,
/// the offset shifts it, and the padding is carved out of the size (the
/// resulting size is clamped at zero, never negative).
pub open spec fn spec_place(
    loc: Location,
    parent: RealLocation,
    smallest: RealSize,
    screen: ScreenSize,
) -> RealLocation {
    let pw = parent.size.width as int;
    let ph = parent.size.height as int;
    let sw = smallest.width as int;
    let sh = smallest.height as int;
    let size_w = spec_resolve(loc.size.width, Axis::Horizontal, pw, ph, sw, sh, screen);
    let size_h = spec_resolve(loc.size.height, Axis::Vertical, pw, ph, sw, sh, screen);
    let pad_l = spec_resolve(loc.padding.left, Axis::Horizontal, pw, ph, sw, sh, screen);
    let pad_r = spec_resolve(loc.padding.right, Axis::Horizontal, pw, ph, sw, sh, screen);
    let pad_u = spec_resolve(loc.padding.up, Axis::Vertical, pw, ph, sw, sh, screen);
    let pad_d = spec_resolve(loc.padding.down, Axis::Vertical, pw, ph, sw, sh, screen);
    let off_x = spec_resolve(loc.offset.x, Axis::Horizontal, pw, ph, sw, sh, screen);
    let off_y = spec_resolve(loc.offset.y, Axis::Vertical, pw, ph, sw, sh, screen);
    let origin_x = scale_mul(clamped(pw - size_w), loc.origin.x as int);
    let origin_y = scale_mul(clamped(ph - size_h), loc.origin.y as int);
    RealLocation {
        position: RealPosition {
            x: clamped(clamped(clamped(parent.position.x + origin_x) + pad_l) + off_x) as i64,
            y: clamped(clamped(clamped(parent.position.y + origin_y) + pad_u) + off_y) as i64,
        },
        size: RealSize {
            width: sub_size(size_w, clamped(pad_l + pad_r)) as i64,
            height: sub_size(size_h, clamped(pad_u + pad_d)) as i64,
        },
        z_index: clamped(parent.z_index + loc.z_index) as i64,
    }
}

/// Resolve a node's own rectangle from its parent's rectangle.
pub fn place(loc: &Location, parent: &RealLocation, smallest: &RealSize, screen: &ScreenSize) -> (r:
    RealLocation)
    requires
        loc.wf(),
        parent.wf(),
        smallest.wf(),
        screen.wf(),
    ensures
        r == spec_place(*loc, *parent, *smallest, *screen),
        r.wf(),
{
    let pw = parent.size.width;
    let ph = parent.size.height;
    let sw = smallest.width;
    let sh = smallest.height;
    let size_w = resolve(loc.size.width, Axis::Horizontal, pw, ph, sw, sh, screen);
    let size_h = resolve(loc.size.height, Axis::Vertical, pw, ph, sw, sh, screen);
    let pad_l = resolve(loc.padding.left, Axis::Horizontal, pw, ph, sw, sh, screen);
    let pad_r = resolve(loc.padding.right, Axis::Horizontal, pw, ph, sw, sh, screen);
    let pad_u = resolve(loc.padding.up, Axis::Vertical, pw, ph, sw, sh, screen);
    let pad_d = resolve(loc.padding.down, Axis::Vertical, pw, ph, sw, sh, screen);
    let off_x = resolve(loc.offset.x, Axis::Horizontal, pw, ph, sw, sh, screen);
    let off_y = resolve(loc.offset.y, Axis::Vertical, pw, ph, sw, sh, screen);
    let origin_x = mul_div(sub_sat(pw, size_w), loc.origin.x, SCALE);
    let origin_y = mul_div(sub_sat(ph, size_h), loc.origin.y, SCALE);
    let x = add_sat(add_sat(add_sat(parent.position.x, origin_x), pad_l), off_x);
    let y = add_sat(add_sat(add_sat(parent.position.y, origin_y), pad_u), off_y);
    let width = sub_clamp0(size_w, add_sat(pad_l, pad_r));
    let height = sub_clamp0(size_h, add_sat(pad_u, pad_d));
    let z_index = add_sat(parent.z_index, loc.z_index);
    RealLocation { position: RealPosition { x, y }, size: RealSize { width, height }, z_index }
}

} // verus!
