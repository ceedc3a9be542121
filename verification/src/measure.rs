//! The measure pass: the smallest size every visible node can occupy,
//! computed bottom-up once per layout pass and cached for the arrange
//! pass that follows.

use vstd::prelude::*;
use crate::num::{clamped, in_range, sub_size, add_sat, sub_clamp0, mul_div, max_i64, min_i64, div_count, scale_mul, muldiv, MAX_COORD};
use crate::length::{resolve, spec_resolve, Axis, Length, ScreenSize};
use crate::space::{Location, Padding, RealSize};
use crate::node::{BorderSize, Grid, Node, NodeKind, Quadrants, spec_check, spec_check_seq, spec_check_quadrants};

verus! {

/// The cached result of measuring one subtree: this node's smallest size
/// and, below it, one entry per child (an invisible child keeps a zero
/// placeholder, since invisible nodes are never measured).
#[derive(Debug)]
pub struct Meas {
    pub size: RealSize,
    pub children: Vec<Meas>,
}

impl Meas {
    /// The placeholder for an invisible child.
    pub fn zero() -> (m: Meas)
        ensures
            m.size == (RealSize { width: 0, height: 0 }),
            m.children@ == Seq::<Meas>::empty(),
    {
        Meas { size: RealSize { width: 0, height: 0 }, children: Vec::new() }
    }
}

/// The children a container hands to the layout passes, in drawing order.
pub open spec fn spec_kids(n: Node) -> Seq<Node> {
    match n.kind {
        NodeKind::Sprite(_) => Seq::empty(),
        NodeKind::Text(_) => Seq::empty(),
        NodeKind::Stack(s) => s.children@,
        NodeKind::Row(s) => s.children@,
        NodeKind::Column(s) => s.children@,
        NodeKind::Wrap(s) => s.children@,
        NodeKind::Grid(g) => g.children@,
        NodeKind::Border(b) => match b.quadrants {
            Some(q) => quadrant_seq(q),
            None => Seq::empty(),
        },
    }
}

/// The nine quadrants in drawing order.
pub open spec fn quadrant_seq(q: Quadrants) -> Seq<Node> {
    seq![q.up_left, q.up, q.up_right, q.left, q.center, q.right, q.down_left, q.down, q.down_right]
}

/// Whether a measure cache belongs to a node: the size is the node's
/// smallest size, and below, visible children carry their own caches
/// while invisible children carry zero placeholders.
pub open spec fn meas_matches(m: Meas, n: Node, screen: ScreenSize) -> bool
    decreases m,
{
    &&& m.size == spec_min_size(n, screen)
    &&& m.size.wf()
    &&& m.children@.len() == spec_kids(n).len()
    &&& forall|i: int|
        0 <= i < m.children@.len() ==> {
            if spec_kids(n)[i].visible {
                meas_matches(#[trigger] m.children@[i], spec_kids(n)[i], screen)
            } else {
                m.children@[i].size == (RealSize { width: 0, height: 0 })
            }
        }
}

/// A fixed length resolved with no parent and no content, clamped at
/// zero: the only minimum a leaf's declaration can state on its own.
pub open spec fn spec_fixed_min(len: Length, axis: Axis, screen: ScreenSize) -> int {
    sub_size(spec_resolve(len, axis, 0, 0, 0, 0, screen), 0)
}

/// Content grown by the declared padding, resolved against the content
/// itself (a parent-relative padding contributes no minimum), clamped at
/// zero.
pub open spec fn spec_padded(content: RealSize, p: Padding, screen: ScreenSize) -> RealSize {
    let cw = content.width as int;
    let ch = content.height as int;
    let l = spec_resolve(p.left, Axis::Horizontal, 0, 0, cw, ch, screen);
    let r = spec_resolve(p.right, Axis::Horizontal, 0, 0, cw, ch, screen);
    let u = spec_resolve(p.up, Axis::Vertical, 0, 0, cw, ch, screen);
    let d = spec_resolve(p.down, Axis::Vertical, 0, 0, cw, ch, screen);
    RealSize {
        width: sub_size(clamped(clamped(cw + l) + r), 0) as i64,
        height: sub_size(clamped(clamped(ch + u) + d), 0) as i64,
    }
}

/// The smallest extent of one axis, from the declared length: a fixed
/// length answers by itself; a parent-relative length has no minimum of
/// its own and falls back to the padded content; a content-fraction
/// length scales the padded content.
pub open spec fn spec_axis_min(len: Length, axis: Axis, padded: RealSize, screen: ScreenSize) -> int {
    match len {
        Length::ParentWidth(_) => padded.spec_axis(axis),
        Length::ParentHeight(_) => padded.spec_axis(axis),
        Length::SmallestWidth(f) => sub_size(scale_mul(padded.width as int, f as int), 0),
        Length::SmallestHeight(f) => sub_size(scale_mul(padded.height as int, f as int), 0),
        _ => spec_fixed_min(len, axis, screen),
    }
}

/// The smallest size a visible node can occupy.
pub open spec fn spec_min_size(n: Node, screen: ScreenSize) -> RealSize
    decreases n,
{
    let content = match n.kind {
        NodeKind::Sprite(_) => RealSize { width: 0, height: 0 },
        NodeKind::Text(_) => RealSize { width: 0, height: 0 },
        NodeKind::Stack(s) => spec_stack_content(s.children@, screen),
        NodeKind::Row(s) => spec_row_content(s.children@, screen),
        NodeKind::Column(s) => spec_column_content(s.children@, screen),
        NodeKind::Wrap(s) => spec_wrap_content(s.children@, screen),
        NodeKind::Grid(g) => spec_grid_content(g, n.location, screen),
        NodeKind::Border(b) => match b.quadrants {
            Some(q) => match b.border_size {
                Some(bs) => spec_border_content(q, bs, screen),
                None => RealSize { width: 0, height: 0 },
            },
            None => RealSize { width: 0, height: 0 },
        },
    };
    let padded = spec_padded(content, n.location.padding, screen);
    RealSize {
        width: spec_axis_min(n.location.size.width, Axis::Horizontal, padded, screen) as i64,
        height: spec_axis_min(n.location.size.height, Axis::Vertical, padded, screen) as i64,
    }
}

/// Stack content: the component-wise maximum over the visible children's
/// smallest sizes; invisible children contribute nothing.
pub open spec fn spec_stack_content(s: Seq<Node>, screen: ScreenSize) -> RealSize
    decreases s,
{
    if s.len() == 0 {
        RealSize { width: 0, height: 0 }
    } else {
        let rest = spec_stack_content(s.drop_last(), screen);
        let c = s.last();
        if c.visible {
            let cs = spec_min_size(c, screen);
            RealSize {
                width: if rest.width >= cs.width {
                    rest.width
                } else {
                    cs.width
                },
                height: if rest.height >= cs.height {
                    rest.height
                } else {
                    cs.height
                },
            }
        } else {
            rest
        }
    }
}

/// Row content: the widths of the visible non-stretch children added up
/// (stretch children have no width of their own), and the tallest
/// visible child's height.
pub open spec fn spec_row_content(s: Seq<Node>, screen: ScreenSize) -> RealSize
    decreases s,
{
    if s.len() == 0 {
        RealSize { width: 0, height: 0 }
    } else {
        let rest = spec_row_content(s.drop_last(), screen);
        let c = s.last();
        if c.visible {
            let cs = spec_min_size(c, screen);
            RealSize {
                width: if c.stretch {
                    rest.width
                } else {
                    clamped(rest.width + cs.width) as i64
                },
                height: if rest.height >= cs.height {
                    rest.height
                } else {
                    cs.height
                },
            }
        } else {
            rest
        }
    }
}

/// Column content: the heights of the visible non-stretch children added
/// up, and the widest visible child's width.
pub open spec fn spec_column_content(s: Seq<Node>, screen: ScreenSize) -> RealSize
    decreases s,
{
    if s.len() == 0 {
        RealSize { width: 0, height: 0 }
    } else {
        let rest = spec_column_content(s.drop_last(), screen);
        let c = s.last();
        if c.visible {
            let cs = spec_min_size(c, screen);
            RealSize {
                width: if rest.width >= cs.width {
                    rest.width
                } else {
                    cs.width
                },
                height: if c.stretch {
                    rest.height
                } else {
                    clamped(rest.height + cs.height) as i64
                },
            }
        } else {
            rest
        }
    }
}

/// Wrap content: all visible children's widths added up (with no known
/// width there is nothing to wrap at, so the minimum is one row), and
/// the tallest visible child's height.
pub open spec fn spec_wrap_content(s: Seq<Node>, screen: ScreenSize) -> RealSize
    decreases s,
{
    if s.len() == 0 {
        RealSize { width: 0, height: 0 }
    } else {
        let rest = spec_wrap_content(s.drop_last(), screen);
        let c = s.last();
        if c.visible {
            let cs = spec_min_size(c, screen);
            RealSize {
                width: clamped(rest.width + cs.width) as i64,
                height: if rest.height >= cs.height {
                    rest.height
                } else {
                    cs.height
                },
            }
        } else {
            rest
        }
    }
}

/// How many children a fold has seen, capped so counts stay in
/// coordinate range.
pub open spec fn spec_count_inc(c: int) -> int {
    if c >= MAX_COORD as int {
        c
    } else {
        c + 1
    }
}

/// Grid children summary: how many are visible (capped), and the
/// component-wise maximum of their smallest sizes.
pub open spec fn spec_grid_kids(s: Seq<Node>, screen: ScreenSize) -> (int, RealSize)
    decreases s,
{
    if s.len() == 0 {
        (0, RealSize { width: 0, height: 0 })
    } else {
        let rest = spec_grid_kids(s.drop_last(), screen);
        let c = s.last();
        if c.visible {
            let cs = spec_min_size(c, screen);
            (
                spec_count_inc(rest.0),
                RealSize {
                    width: if rest.1.width >= cs.width {
                        rest.1.width
                    } else {
                        cs.width
                    },
                    height: if rest.1.height >= cs.height {
                        rest.1.height
                    } else {
                        cs.height
                    },
                },
            )
        } else {
            rest
        }
    }
}

/// One cell extent: a parent-relative cell length falls back to the
/// largest child's extent; anything else resolves against the largest
/// child as the content.
pub open spec fn spec_cell_axis(len: Length, axis: Axis, mc: RealSize, screen: ScreenSize) -> int {
    match len {
        Length::ParentWidth(_) => mc.spec_axis(axis),
        Length::ParentHeight(_) => mc.spec_axis(axis),
        _ => sub_size(
            spec_resolve(len, axis, 0, 0, mc.width as int, mc.height as int, screen),
            0,
        ),
    }
}

/// How many columns a grid with a known width can hold: the width left
/// after fixed padding, divided by the cell width, at least one and at
/// most the child count.
pub open spec fn spec_grid_columns(count: int, avail: int, cell_w: int) -> int {
    if count == 0 {
        0
    } else if cell_w == 0 {
        count
    } else {
        let by_width = avail / cell_w;
        let floored = if by_width >= 1 {
            by_width
        } else {
            1
        };
        if floored >= count {
            count
        } else {
            floored
        }
    }
}

/// Grid content.  With no fixed width the children sit in one row; with
/// a fixed width they fill as many columns as fit and wrap into rows.
pub open spec fn spec_grid_content(g: Grid, loc: Location, screen: ScreenSize) -> RealSize
    decreases g,
{
    match g.grid_size {
        None => RealSize { width: 0, height: 0 },
        Some(gs) => {
            let kids = spec_grid_kids(g.children@, screen);
            let count = kids.0;
            let mc = kids.1;
            let cell_w = spec_cell_axis(gs.width, Axis::Horizontal, mc, screen);
            let cell_h = spec_cell_axis(gs.height, Axis::Vertical, mc, screen);
            if !loc.size.width.spec_is_fixed() {
                RealSize {
                    width: muldiv(count, cell_w, 1) as i64,
                    height: cell_h as i64,
                }
            } else {
                let own_w = spec_fixed_min(loc.size.width, Axis::Horizontal, screen);
                let pad_l = spec_resolve(loc.padding.left, Axis::Horizontal, 0, 0, 0, 0, screen);
                let pad_r = spec_resolve(loc.padding.right, Axis::Horizontal, 0, 0, 0, 0, screen);
                let avail = sub_size(own_w, clamped(pad_l + pad_r));
                let columns = spec_grid_columns(count, avail, cell_w);
                let rows = if count == 0 {
                    0
                } else {
                    (count + columns - 1) / columns
                };
                RealSize {
                    width: muldiv(columns, cell_w, 1) as i64,
                    height: muldiv(rows, cell_h, 1) as i64,
                }
            }
        },
    }
}

/// One border extent at measure time: a fixed length answers by itself,
/// a parent-relative length has no minimum, a content fraction on the
/// extent's own axis scales the center, and a cross-axis content
/// fraction scales the other axis's already-resolved total.
pub open spec fn spec_border_ext(
    len: Length,
    axis: Axis,
    center: RealSize,
    cross_total: int,
    screen: ScreenSize,
) -> int {
    match len {
        Length::ParentWidth(_) => 0,
        Length::ParentHeight(_) => 0,
        Length::SmallestWidth(f) => match axis {
            Axis::Horizontal => sub_size(scale_mul(center.width as int, f as int), 0),
            Axis::Vertical => sub_size(scale_mul(cross_total, f as int), 0),
        },
        Length::SmallestHeight(f) => match axis {
            Axis::Vertical => sub_size(scale_mul(center.height as int, f as int), 0),
            Axis::Horizontal => sub_size(scale_mul(cross_total, f as int), 0),
        },
        _ => spec_fixed_min(len, axis, screen),
    }
}

/// Border-grid content: the border extents plus the center's smallest
/// size.  The axis that does not depend on the other is resolved first;
/// a configuration where each axis needs the other is rejected before
/// measuring ever starts.
pub open spec fn spec_border_content(q: Quadrants, bs: BorderSize, screen: ScreenSize) -> RealSize
    decreases q,
{
    let center = if q.center.visible {
        spec_min_size(q.center, screen)
    } else {
        RealSize { width: 0, height: 0 }
    };
    let w_needs_h = bs.left is SmallestHeight || bs.right is SmallestHeight;
    if !w_needs_h {
        let ext_l = spec_border_ext(bs.left, Axis::Horizontal, center, 0, screen);
        let ext_r = spec_border_ext(bs.right, Axis::Horizontal, center, 0, screen);
        let w_total = sub_size(clamped(clamped(center.width + ext_l) + ext_r), 0);
        let ext_u = spec_border_ext(bs.up, Axis::Vertical, center, w_total, screen);
        let ext_d = spec_border_ext(bs.down, Axis::Vertical, center, w_total, screen);
        let h_total = sub_size(clamped(clamped(center.height + ext_u) + ext_d), 0);
        RealSize { width: w_total as i64, height: h_total as i64 }
    } else {
        let ext_u = spec_border_ext(bs.up, Axis::Vertical, center, 0, screen);
        let ext_d = spec_border_ext(bs.down, Axis::Vertical, center, 0, screen);
        let h_total = sub_size(clamped(clamped(center.height + ext_u) + ext_d), 0);
        let ext_l = spec_border_ext(bs.left, Axis::Horizontal, center, h_total, screen);
        let ext_r = spec_border_ext(bs.right, Axis::Horizontal, center, h_total, screen);
        let w_total = sub_size(clamped(clamped(center.width + ext_l) + ext_r), 0);
        RealSize { width: w_total as i64, height: h_total as i64 }
    }
}


/// Measured caches stand beside the children they belong to.
pub open spec fn kids_measured(nodes: Seq<Node>, ms: Seq<Meas>, screen: ScreenSize) -> bool {
    &&& ms.len() == nodes.len()
    &&& forall|i: int|
        0 <= i < ms.len() ==> {
            if nodes[i].visible {
                meas_matches(#[trigger] ms[i], nodes[i], screen)
            } else {
                ms[i].size == (RealSize { width: 0, height: 0 })
            }
        }
}

/// Everything below a passing configuration check passes its own check.
pub(crate) proof fn lemma_check_seq_ok(s: Seq<Node>)
    requires
        spec_check_seq(s) is Ok,
    ensures
        forall|i: int| 0 <= i < s.len() ==> (#[trigger] spec_check(s[i])) is Ok,
    decreases s,
{
    if s.len() > 0 {
        lemma_check_seq_ok(s.drop_first());
        assert forall|i: int| 0 <= i < s.len() implies (#[trigger] spec_check(s[i])) is Ok by {
            if i > 0 {
                assert(s.drop_first()[i - 1] == s[i]);
            }
        }
    }
}

/// A fixed length's own minimum.
pub(crate) fn fixed_min(len: Length, axis: Axis, screen: &ScreenSize) -> (r: i64)
    requires
        len.wf(),
        screen.wf(),
    ensures
        r as int == spec_fixed_min(len, axis, *screen),
        0 <= r <= MAX_COORD,
{
    let v = resolve(len, axis, 0, 0, 0, 0, screen);
    sub_clamp0(v, 0)
}

/// Grow content by its padding.
pub(crate) fn pad_content(content: &RealSize, p: &Padding, screen: &ScreenSize) -> (r: RealSize)
    requires
        content.wf(),
        p.wf(),
        screen.wf(),
    ensures
        r == spec_padded(*content, *p, *screen),
        r.wf(),
{
    let cw = content.width;
    let ch = content.height;
    let l = resolve(p.left, Axis::Horizontal, 0, 0, cw, ch, screen);
    let r_ = resolve(p.right, Axis::Horizontal, 0, 0, cw, ch, screen);
    let u = resolve(p.up, Axis::Vertical, 0, 0, cw, ch, screen);
    let d = resolve(p.down, Axis::Vertical, 0, 0, cw, ch, screen);
    let width = sub_clamp0(add_sat(add_sat(cw, l), r_), 0);
    let height = sub_clamp0(add_sat(add_sat(ch, u), d), 0);
    RealSize { width, height }
}

/// The smallest extent of one axis from the declared length.
pub(crate) fn axis_min(len: Length, axis: Axis, padded: &RealSize, screen: &ScreenSize) -> (r: i64)
    requires
        len.wf(),
        padded.wf(),
        screen.wf(),
    ensures
        r as int == spec_axis_min(len, axis, *padded, *screen),
        0 <= r <= MAX_COORD,
{
    match len {
        Length::ParentWidth(_) => match axis {
            Axis::Horizontal => padded.width,
            Axis::Vertical => padded.height,
        },
        Length::ParentHeight(_) => match axis {
            Axis::Horizontal => padded.width,
            Axis::Vertical => padded.height,
        },
        Length::SmallestWidth(f) => sub_clamp0(mul_div(padded.width, f, crate::num::SCALE), 0),
        Length::SmallestHeight(f) => sub_clamp0(mul_div(padded.height, f, crate::num::SCALE), 0),
        _ => fixed_min(len, axis, screen),
    }
}

/// Measure a visible subtree bottom-up, caching every visible node's
/// smallest size.  Invisible nodes must not be measured: callers skip
/// them, and invisible children get zero placeholders.
pub fn measure(n: &Node, screen: &ScreenSize) -> (m: Meas)
    requires
        n.valid(),
        screen.wf(),
    ensures
        meas_matches(m, *n, *screen),
    decreases *n,
{
    let kids: Vec<Meas> = match &n.kind {
        NodeKind::Sprite(_) => Vec::new(),
        NodeKind::Text(_) => Vec::new(),
        NodeKind::Stack(s) => measure_kids(&s.children, screen),
        NodeKind::Row(s) => measure_kids(&s.children, screen),
        NodeKind::Column(s) => measure_kids(&s.children, screen),
        NodeKind::Wrap(s) => measure_kids(&s.children, screen),
        NodeKind::Grid(g) => measure_kids(&g.children, screen),
        NodeKind::Border(b) => match &b.quadrants {
            Some(q) => measure_quadrants(q, screen),
            None => Vec::new(),
        },
    };
    let content: RealSize = match &n.kind {
        NodeKind::Sprite(_) => RealSize::zero(),
        NodeKind::Text(_) => RealSize::zero(),
        NodeKind::Stack(s) => stack_content(&s.children, &kids, screen),
        NodeKind::Row(s) => row_content(&s.children, &kids, screen),
        NodeKind::Column(s) => column_content(&s.children, &kids, screen),
        NodeKind::Wrap(s) => wrap_content(&s.children, &kids, screen),
        NodeKind::Grid(g) => grid_content(g, &n.location, &kids, screen),
        NodeKind::Border(b) => match (&b.quadrants, &b.border_size) {
            (Some(q), Some(bs)) => border_content(q, bs, &kids, screen),
            _ => RealSize::zero(),
        },
    };
    let padded = pad_content(&content, &n.location.padding, screen);
    let width = axis_min(n.location.size.width, Axis::Horizontal, &padded, screen);
    let height = axis_min(n.location.size.height, Axis::Vertical, &padded, screen);
    Meas { size: RealSize { width, height }, children: kids }
}

/// Measure a container's children: visible ones for real, invisible
/// ones as zero placeholders.
pub(crate) fn measure_kids(nodes: &Vec<Node>, screen: &ScreenSize) -> (ms: Vec<Meas>)
    requires
        spec_check_seq(nodes@) is Ok,
        screen.wf(),
    ensures
        kids_measured(nodes@, ms@, *screen),
    decreases nodes@,
{
    proof {
        lemma_check_seq_ok(nodes@);
    }
    let n = nodes.len();
    let mut ms: Vec<Meas> = Vec::new();
    let mut i: usize = 0;
    while i < n
        invariant
            n == nodes@.len(),
            0 <= i <= n,
            ms@.len() == i,
            screen.wf(),
            forall|j: int| 0 <= j < nodes@.len() ==> (#[trigger] spec_check(nodes@[j])) is Ok,
            forall|j: int|
                0 <= j < i ==> {
                    if nodes@[j].visible {
                        meas_matches(#[trigger] ms@[j], nodes@[j], *screen)
                    } else {
                        ms@[j].size == (RealSize { width: 0, height: 0 })
                    }
                },
        decreases n - i,
    {
        if nodes[i].visible {
            let m = measure(&nodes[i], screen);
            ms.push(m);
        } else {
            ms.push(Meas::zero());
        }
        i = i + 1;
    }
    ms
}

/// Measure the nine quadrants of a border grid, in drawing order.
pub(crate) fn measure_quadrants(q: &Quadrants, screen: &ScreenSize) -> (ms: Vec<Meas>)
    requires
        spec_check_quadrants(*q) is Ok,
        screen.wf(),
    ensures
        kids_measured(quadrant_seq(*q), ms@, *screen),
    decreases *q,
{
    let mut ms: Vec<Meas> = Vec::new();
    let m = if q.up_left.visible { measure(&q.up_left, screen) } else { Meas::zero() };
    ms.push(m);
    let m = if q.up.visible { measure(&q.up, screen) } else { Meas::zero() };
    ms.push(m);
    let m = if q.up_right.visible { measure(&q.up_right, screen) } else { Meas::zero() };
    ms.push(m);
    let m = if q.left.visible { measure(&q.left, screen) } else { Meas::zero() };
    ms.push(m);
    let m = if q.center.visible { measure(&q.center, screen) } else { Meas::zero() };
    ms.push(m);
    let m = if q.right.visible { measure(&q.right, screen) } else { Meas::zero() };
    ms.push(m);
    let m = if q.down_left.visible { measure(&q.down_left, screen) } else { Meas::zero() };
    ms.push(m);
    let m = if q.down.visible { measure(&q.down, screen) } else { Meas::zero() };
    ms.push(m);
    let m = if q.down_right.visible { measure(&q.down_right, screen) } else { Meas::zero() };
    ms.push(m);
    proof {
        assert forall|i: int| 0 <= i < ms@.len() implies {
            if quadrant_seq(*q)[i].visible {
                meas_matches(#[trigger] ms@[i], quadrant_seq(*q)[i], *screen)
            } else {
                ms@[i].size == (RealSize { width: 0, height: 0 })
            }
        } by {
            assert(quadrant_seq(*q)[0] == q.up_left);
            assert(quadrant_seq(*q)[1] == q.up);
            assert(quadrant_seq(*q)[2] == q.up_right);
            assert(quadrant_seq(*q)[3] == q.left);
            assert(quadrant_seq(*q)[4] == q.center);
            assert(quadrant_seq(*q)[5] == q.right);
            assert(quadrant_seq(*q)[6] == q.down_left);
            assert(quadrant_seq(*q)[7] == q.down);
            assert(quadrant_seq(*q)[8] == q.down_right);
        }
    }
    ms
}

/// Combine measured children by the stack rule.
pub(crate) fn stack_content(nodes: &Vec<Node>, ms: &Vec<Meas>, screen: &ScreenSize) -> (r: RealSize)
    requires
        kids_measured(nodes@, ms@, *screen),
    ensures
        r == spec_stack_content(nodes@, *screen),
        r.wf(),
{
    let n = nodes.len();
    let mut acc = RealSize::zero();
    let mut i: usize = 0;
    proof {
        assert(nodes@.take(0) =~= Seq::<Node>::empty());
    }
    while i < n
        invariant
            n == nodes@.len(),
            0 <= i <= n,
            kids_measured(nodes@, ms@, *screen),
            acc == spec_stack_content(nodes@.take(i as int), *screen),
            acc.wf(),
        decreases n - i,
    {
        proof {
            assert(nodes@.take(i + 1 as int).drop_last() =~= nodes@.take(i as int));
            assert(nodes@.take(i + 1 as int).last() == nodes@[i as int]);
        }
        if nodes[i].visible {
            let cs = ms[i].size;
            acc = RealSize {
                width: max_i64(acc.width, cs.width),
                height: max_i64(acc.height, cs.height),
            };
        }
        i = i + 1;
    }
    proof {
        assert(nodes@.take(n as int) =~= nodes@);
    }
    acc
}

/// Combine measured children by the row rule.
pub(crate) fn row_content(nodes: &Vec<Node>, ms: &Vec<Meas>, screen: &ScreenSize) -> (r: RealSize)
    requires
        kids_measured(nodes@, ms@, *screen),
    ensures
        r == spec_row_content(nodes@, *screen),
        r.wf(),
{
    let n = nodes.len();
    let mut acc = RealSize::zero();
    let mut i: usize = 0;
    proof {
        assert(nodes@.take(0) =~= Seq::<Node>::empty());
    }
    while i < n
        invariant
            n == nodes@.len(),
            0 <= i <= n,
            kids_measured(nodes@, ms@, *screen),
            acc == spec_row_content(nodes@.take(i as int), *screen),
            acc.wf(),
        decreases n - i,
    {
        proof {
            assert(nodes@.take(i + 1 as int).drop_last() =~= nodes@.take(i as int));
            assert(nodes@.take(i + 1 as int).last() == nodes@[i as int]);
        }
        if nodes[i].visible {
            let cs = ms[i].size;
            let width = if nodes[i].stretch {
                acc.width
            } else {
                add_sat(acc.width, cs.width)
            };
            acc = RealSize { width, height: max_i64(acc.height, cs.height) };
        }
        i = i + 1;
    }
    proof {
        assert(nodes@.take(n as int) =~= nodes@);
    }
    acc
}

/// Combine measured children by the column rule.
pub(crate) fn column_content(nodes: &Vec<Node>, ms: &Vec<Meas>, screen: &ScreenSize) -> (r: RealSize)
    requires
        kids_measured(nodes@, ms@, *screen),
    ensures
        r == spec_column_content(nodes@, *screen),
        r.wf(),
{
    let n = nodes.len();
    let mut acc = RealSize::zero();
    let mut i: usize = 0;
    proof {
        assert(nodes@.take(0) =~= Seq::<Node>::empty());
    }
    while i < n
        invariant
            n == nodes@.len(),
            0 <= i <= n,
            kids_measured(nodes@, ms@, *screen),
            acc == spec_column_content(nodes@.take(i as int), *screen),
            acc.wf(),
        decreases n - i,
    {
        proof {
            assert(nodes@.take(i + 1 as int).drop_last() =~= nodes@.take(i as int));
            assert(nodes@.take(i + 1 as int).last() == nodes@[i as int]);
        }
        if nodes[i].visible {
            let cs = ms[i].size;
            let height = if nodes[i].stretch {
                acc.height
            } else {
                add_sat(acc.height, cs.height)
            };
            acc = RealSize { width: max_i64(acc.width, cs.width), height };
        }
        i = i + 1;
    }
    proof {
        assert(nodes@.take(n as int) =~= nodes@);
    }
    acc
}

/// Combine measured children by the wrap rule.
pub(crate) fn wrap_content(nodes: &Vec<Node>, ms: &Vec<Meas>, screen: &ScreenSize) -> (r: RealSize)
    requires
        kids_measured(nodes@, ms@, *screen),
    ensures
        r == spec_wrap_content(nodes@, *screen),
        r.wf(),
{
    let n = nodes.len();
    let mut acc = RealSize::zero();
    let mut i: usize = 0;
    proof {
        assert(nodes@.take(0) =~= Seq::<Node>::empty());
    }
    while i < n
        invariant
            n == nodes@.len(),
            0 <= i <= n,
            kids_measured(nodes@, ms@, *screen),
            acc == spec_wrap_content(nodes@.take(i as int), *screen),
            acc.wf(),
        decreases n - i,
    {
        proof {
            assert(nodes@.take(i + 1 as int).drop_last() =~= nodes@.take(i as int));
            assert(nodes@.take(i + 1 as int).last() == nodes@[i as int]);
        }
        if nodes[i].visible {
            let cs = ms[i].size;
            acc = RealSize {
                width: add_sat(acc.width, cs.width),
                height: max_i64(acc.height, cs.height),
            };
        }
        i = i + 1;
    }
    proof {
        assert(nodes@.take(n as int) =~= nodes@);
    }
    acc
}

/// Count and bound the visible grid children.
pub(crate) fn grid_kids(nodes: &Vec<Node>, ms: &Vec<Meas>, screen: &ScreenSize) -> (r: (i64, RealSize))
    requires
        kids_measured(nodes@, ms@, *screen),
    ensures
        r.0 as int == spec_grid_kids(nodes@, *screen).0,
        r.1 == spec_grid_kids(nodes@, *screen).1,
        0 <= r.0 <= MAX_COORD,
        r.1.wf(),
{
    let n = nodes.len();
    let mut count: i64 = 0;
    let mut mc = RealSize::zero();
    let mut i: usize = 0;
    proof {
        assert(nodes@.take(0) =~= Seq::<Node>::empty());
    }
    while i < n
        invariant
            n == nodes@.len(),
            0 <= i <= n,
            kids_measured(nodes@, ms@, *screen),
            count as int == spec_grid_kids(nodes@.take(i as int), *screen).0,
            mc == spec_grid_kids(nodes@.take(i as int), *screen).1,
            0 <= count <= MAX_COORD,
            mc.wf(),
        decreases n - i,
    {
        proof {
            assert(nodes@.take(i + 1 as int).drop_last() =~= nodes@.take(i as int));
            assert(nodes@.take(i + 1 as int).last() == nodes@[i as int]);
        }
        if nodes[i].visible {
            let cs = ms[i].size;
            if count < MAX_COORD {
                count = count + 1;
            }
            mc = RealSize {
                width: max_i64(mc.width, cs.width),
                height: max_i64(mc.height, cs.height),
            };
        }
        i = i + 1;
    }
    proof {
        assert(nodes@.take(n as int) =~= nodes@);
    }
    (count, mc)
}

/// One cell extent of a grid.
pub(crate) fn cell_axis(len: Length, axis: Axis, mc: &RealSize, screen: &ScreenSize) -> (r: i64)
    requires
        len.wf(),
        mc.wf(),
        screen.wf(),
    ensures
        r as int == spec_cell_axis(len, axis, *mc, *screen),
        0 <= r <= MAX_COORD,
{
    match len {
        Length::ParentWidth(_) => match axis {
            Axis::Horizontal => mc.width,
            Axis::Vertical => mc.height,
        },
        Length::ParentHeight(_) => match axis {
            Axis::Horizontal => mc.width,
            Axis::Vertical => mc.height,
        },
        _ => sub_clamp0(resolve(len, axis, 0, 0, mc.width, mc.height, screen), 0),
    }
}

/// Grid content from its measured children.
pub(crate) fn grid_content(g: &Grid, loc: &Location, ms: &Vec<Meas>, screen: &ScreenSize) -> (r: RealSize)
    requires
        kids_measured(g.children@, ms@, *screen),
        g.grid_size is Some,
        g.grid_size->Some_0.wf(),
        loc.wf(),
        screen.wf(),
    ensures
        r == spec_grid_content(*g, *loc, *screen),
        r.wf(),
{
    let gs = g.grid_size.as_ref().unwrap();
    let (count, mc) = grid_kids(&g.children, ms, screen);
    let cell_w = cell_axis(gs.width, Axis::Horizontal, &mc, screen);
    let cell_h = cell_axis(gs.height, Axis::Vertical, &mc, screen);
    if !loc.size.width.is_fixed() {
        RealSize { width: mul_div(count, cell_w, 1), height: cell_h }
    } else {
        let own_w = fixed_min(loc.size.width, Axis::Horizontal, screen);
        let pad_l = resolve(loc.padding.left, Axis::Horizontal, 0, 0, 0, 0, screen);
        let pad_r = resolve(loc.padding.right, Axis::Horizontal, 0, 0, 0, 0, screen);
        let avail = sub_clamp0(own_w, add_sat(pad_l, pad_r));
        let columns: i64 = if count == 0 {
            0
        } else if cell_w == 0 {
            count
        } else {
            let by_width = div_count(avail, cell_w as u64);
            let floored = max_i64(by_width, 1);
            min_i64(floored, count)
        };
        let rows: i64 = if count == 0 {
            0
        } else {
            proof {
                let c = count as int;
                let k = columns as int;
                assert(c + k - 1 <= c * k) by (nonlinear_arith)
                    requires
                        c >= 1,
                        k >= 1,
                ;
                vstd::arithmetic::div_mod::lemma_div_is_ordered(c + k - 1, c * k, k);
                vstd::arithmetic::div_mod::lemma_div_by_multiple(c, k);
            }
            ((count as u64 + columns as u64 - 1) / (columns as u64)) as i64
        };
        RealSize { width: mul_div(columns, cell_w, 1), height: mul_div(rows, cell_h, 1) }
    }
}

/// One border extent at measure time.
pub(crate) fn border_ext(len: Length, axis: Axis, center: &RealSize, cross_total: i64, screen: &ScreenSize) -> (r: i64)
    requires
        len.wf(),
        center.wf(),
        screen.wf(),
        0 <= cross_total <= MAX_COORD,
    ensures
        r as int == spec_border_ext(len, axis, *center, cross_total as int, *screen),
        0 <= r <= MAX_COORD,
{
    match len {
        Length::ParentWidth(_) => 0,
        Length::ParentHeight(_) => 0,
        Length::SmallestWidth(f) => match axis {
            Axis::Horizontal => sub_clamp0(mul_div(center.width, f, crate::num::SCALE), 0),
            Axis::Vertical => sub_clamp0(mul_div(cross_total, f, crate::num::SCALE), 0),
        },
        Length::SmallestHeight(f) => match axis {
            Axis::Vertical => sub_clamp0(mul_div(center.height, f, crate::num::SCALE), 0),
            Axis::Horizontal => sub_clamp0(mul_div(cross_total, f, crate::num::SCALE), 0),
        },
        _ => fixed_min(len, axis, screen),
    }
}

/// Border-grid content from its measured center.
pub(crate) fn border_content(q: &Quadrants, bs: &BorderSize, ms: &Vec<Meas>, screen: &ScreenSize) -> (r: RealSize)
    requires
        kids_measured(quadrant_seq(*q), ms@, *screen),
        bs.wf(),
        screen.wf(),
    ensures
        r == spec_border_content(*q, *bs, *screen),
        r.wf(),
{
    proof {
        assert(quadrant_seq(*q)[4] == q.center);
    }
    let center = ms[4].size;
    let w_needs_h = matches!(bs.left, Length::SmallestHeight(_)) || matches!(
        bs.right,
        Length::SmallestHeight(_),
    );
    if !w_needs_h {
        let ext_l = border_ext(bs.left, Axis::Horizontal, &center, 0, screen);
        let ext_r = border_ext(bs.right, Axis::Horizontal, &center, 0, screen);
        let w_total = sub_clamp0(add_sat(add_sat(center.width, ext_l), ext_r), 0);
        let ext_u = border_ext(bs.up, Axis::Vertical, &center, w_total, screen);
        let ext_d = border_ext(bs.down, Axis::Vertical, &center, w_total, screen);
        let h_total = sub_clamp0(add_sat(add_sat(center.height, ext_u), ext_d), 0);
        RealSize { width: w_total, height: h_total }
    } else {
        let ext_u = border_ext(bs.up, Axis::Vertical, &center, 0, screen);
        let ext_d = border_ext(bs.down, Axis::Vertical, &center, 0, screen);
        let h_total = sub_clamp0(add_sat(add_sat(center.height, ext_u), ext_d), 0);
        let ext_l = border_ext(bs.left, Axis::Horizontal, &center, h_total, screen);
        let ext_r = border_ext(bs.right, Axis::Horizontal, &center, h_total, screen);
        let w_total = sub_clamp0(add_sat(add_sat(center.width, ext_l), ext_r), 0);
        RealSize { width: w_total, height: h_total }
    }
}

} // verus!
