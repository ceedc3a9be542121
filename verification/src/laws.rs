//! The engine's stated laws, proved once and for all over the layout
//! specifications.

use vstd::prelude::*;
use crate::num::{px_frac, tdiv, MAX_COORD, SCALE};
use crate::length::{spec_resolve, Axis, Length, ScreenSize};
use crate::space::{spec_place, Location, RealLocation, RealSize};
use crate::node::Node;
use crate::measure::{spec_min_size, spec_stack_content};
use crate::arrange::spec_arrange;
use crate::sprite::SheetData;
use crate::text::FontData;

verus! {

/// A pixel length resolves the same whatever the parent and content
/// extents are: only the screen's pixel extent matters.
pub proof fn lemma_px_parent_independent(
    n: i32,
    axis: Axis,
    p1w: int,
    p1h: int,
    s1w: int,
    s1h: int,
    p2w: int,
    p2h: int,
    s2w: int,
    s2h: int,
    screen: ScreenSize,
)
    ensures
        spec_resolve(Length::Px(n), axis, p1w, p1h, s1w, s1h, screen) == spec_resolve(
            Length::Px(n),
            axis,
            p2w,
            p2h,
            s2w,
            s2h,
            screen,
        ),
{
}

/// On a screen whose pixel extent divides the fixed-point scale evenly,
/// a pixel length resolves to exactly the pixel count times one pixel's
/// worth of screen space.
pub proof fn lemma_px_value(n: int, px: int, k: int)
    requires
        px >= 1,
        px * k == SCALE as int,
        -(MAX_COORD as int) <= n * k <= MAX_COORD as int,
    ensures
        px_frac(n, px) == n * k,
{
    let m = n * k;
    assert(n * (SCALE as int) == m * px) by (nonlinear_arith)
        requires
            px * k == SCALE as int,
            m == n * k,
    ;
    if m >= 0 {
        vstd::arithmetic::div_mod::lemma_div_by_multiple(m, px);
        assert(tdiv(m * px, px) == m);
    } else {
        vstd::arithmetic::div_mod::lemma_div_by_multiple(-m, px);
        assert((-m) * px == -(m * px)) by (nonlinear_arith);
        assert(tdiv(m * px, px) == -((-(m * px)) / px));
        assert(tdiv(m * px, px) == m);
    }
}

/// Pixel lengths resolve linearly in the pixel count, on a screen whose
/// pixel extent divides the fixed-point scale evenly and within the
/// saturation range.
pub proof fn lemma_px_linear(a: int, b: int, px: int, k: int)
    requires
        px >= 1,
        px * k == SCALE as int,
        -(MAX_COORD as int) <= a * k <= MAX_COORD as int,
        -(MAX_COORD as int) <= b * k <= MAX_COORD as int,
        -(MAX_COORD as int) <= (a + b) * k <= MAX_COORD as int,
    ensures
        px_frac(a + b, px) == px_frac(a, px) + px_frac(b, px),
{
    lemma_px_value(a, px, k);
    lemma_px_value(b, px, k);
    lemma_px_value(a + b, px, k);
    assert((a + b) * k == a * k + b * k) by (nonlinear_arith);
}

/// Every arranged rectangle keeps nonnegative extents, even when the
/// declared padding exceeds the declared size: size subtraction clamps
/// at zero, never below.
pub proof fn lemma_place_size_nonnegative(
    loc: Location,
    parent: RealLocation,
    smallest: RealSize,
    screen: ScreenSize,
)
    ensures
        spec_place(loc, parent, smallest, screen).size.width >= 0,
        spec_place(loc, parent, smallest, screen).size.height >= 0,
        spec_place(loc, parent, smallest, screen).size.wf(),
{
}

/// The smallest size of any node is itself a sound size: both extents
/// nonnegative and in range.
pub proof fn lemma_min_size_nonnegative(n: Node, screen: ScreenSize)
    ensures
        spec_min_size(n, screen).wf(),
        spec_min_size(n, screen).width >= 0,
        spec_min_size(n, screen).height >= 0,
{
}

/// The stack rule: a stack's content is the component-wise maximum of
/// its visible children's smallest sizes, and invisible children
/// contribute nothing.  Every visible child fits, and each extent is
/// zero or attained by some visible child.
pub proof fn lemma_stack_content_max(s: Seq<Node>, screen: ScreenSize)
    ensures
        forall|i: int|
            0 <= i < s.len() && s[i].visible ==> #[trigger] spec_min_size(s[i], screen).width
                <= spec_stack_content(s, screen).width && spec_min_size(s[i], screen).height
                <= spec_stack_content(s, screen).height,
        spec_stack_content(s, screen).width == 0 || exists|i: int|
            0 <= i < s.len() && s[i].visible && #[trigger] spec_min_size(s[i], screen).width
                == spec_stack_content(s, screen).width,
        spec_stack_content(s, screen).height == 0 || exists|i: int|
            0 <= i < s.len() && s[i].visible && #[trigger] spec_min_size(s[i], screen).height
                == spec_stack_content(s, screen).height,
    decreases s.len(),
{
    if s.len() > 0 {
        lemma_stack_content_max(s.drop_last(), screen);
        let rest = spec_stack_content(s.drop_last(), screen);
        let full = spec_stack_content(s, screen);
        assert(s.drop_last() =~= s.take(s.len() - 1));
        assert forall|i: int|
            0 <= i < s.len() && s[i].visible implies #[trigger] spec_min_size(s[i], screen).width
            <= full.width && spec_min_size(s[i], screen).height <= full.height by {
            if i < s.len() - 1 {
                assert(s.drop_last()[i] == s[i]);
            }
        }
        if full.width != 0 {
            if s.last().visible && spec_min_size(s.last(), screen).width == full.width {
                assert(spec_min_size(s[s.len() - 1], screen).width == full.width);
            } else {
                let i = choose|i: int|
                    0 <= i < s.drop_last().len() && s.drop_last()[i].visible
                        && #[trigger] spec_min_size(s.drop_last()[i], screen).width == rest.width;
                assert(s.drop_last()[i] == s[i]);
                assert(spec_min_size(s[i], screen).width == full.width);
            }
        }
        if full.height != 0 {
            if s.last().visible && spec_min_size(s.last(), screen).height == full.height {
                assert(spec_min_size(s[s.len() - 1], screen).height == full.height);
            } else {
                let i = choose|i: int|
                    0 <= i < s.drop_last().len() && s.drop_last()[i].visible
                        && #[trigger] spec_min_size(s.drop_last()[i], screen).height == rest.height;
                assert(s.drop_last()[i] == s[i]);
                assert(spec_min_size(s[i], screen).height == full.height);
            }
        }
    }
}

/// Layout is a function of the tree, the assets and the screen alone:
/// two frames over the same state produce identical draw records,
/// rendered-leaf lists and stacking watermarks.  Together with the
/// frame driver's promise that a frame hands the tree and registries
/// back untouched, running measure and arrange twice in a row gives
/// identical results.
pub proof fn lemma_layout_deterministic(
    n1: Node,
    n2: Node,
    parent: RealLocation,
    wm: int,
    path: Seq<usize>,
    sheets: Map<u64, SheetData>,
    fonts: Map<u64, FontData>,
    screen: ScreenSize,
)
    requires
        n1 == n2,
    ensures
        spec_arrange(n1, parent, wm, path, sheets, fonts, screen) == spec_arrange(
            n2,
            parent,
            wm,
            path,
            sheets,
            fonts,
            screen,
        ),
{
}

} // verus!
