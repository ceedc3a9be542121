//! The arrange pass: top-down placement of every visible node, emitting
//! draw records and the rendered-leaf list, while the stacking watermark
//! keeps later drawings above earlier ones.

use vstd::prelude::*;
use crate::num::{add_sat, clamped, div_count, in_range, max_i64, rem_count, sub_clamp0, sub_floor, sub_sat, sub_size, MAX_COORD, SCALE};
use crate::length::{resolve, spec_resolve, Axis, ScreenSize};
use crate::space::{place, spec_place, Location, RealLocation, RealPosition, RealSize};
use crate::node::{BorderSize, Node, NodeKind, Quadrants};
use crate::measure::{cell_axis, grid_kids, kids_measured, meas_matches, quadrant_seq, spec_cell_axis, spec_grid_kids, spec_min_size, Meas};
use crate::sprite::{repeat_uv, spec_repeat_uv, SheetData, Sprite};
use crate::text::{spec_text_instances, text_instances, ColorRgb, FontData};
use crate::render::{re_view, re_views, Instance, RenderEntry};
use crate::registry::Handles;

verus! {

/// A child's assigned rectangle: position and size (the stacking index
/// comes from the watermark when the child is arranged).
pub open spec fn rect_wf(r: (RealPosition, RealSize)) -> bool {
    r.0.wf() && r.1.wf()
}

/// The larger of two stacking indices.
pub open spec fn spec_zmax(a: int, b: int) -> int {
    if a >= b {
        a
    } else {
        b
    }
}

/// What arranging one subtree produces: draw records in drawing order,
/// the rendered-leaf entries, and the new stacking watermark.
pub open spec fn spec_arrange(
    n: Node,
    parent: RealLocation,
    wm: int,
    path: Seq<usize>,
    sheets: Map<u64, SheetData>,
    fonts: Map<u64, FontData>,
    screen: ScreenSize,
) -> (Seq<Instance>, Seq<(Seq<usize>, RealLocation, i64, i64)>, int)
    decreases n,
{
    let small = spec_min_size(n, screen);
    let this = spec_place(n.location, parent, small, screen);
    match n.kind {
        NodeKind::Sprite(sp) => {
            let uvw = spec_repeat_uv(
                sp.repeat_tile.width,
                Axis::Horizontal,
                parent.size,
                small,
                screen,
                this.size.width as int,
            );
            let uvh = spec_repeat_uv(
                sp.repeat_tile.height,
                Axis::Vertical,
                parent.size,
                small,
                screen,
                this.size.height as int,
            );
            let insts = if sp.spritesheet is Some && sheets.contains_key(
                sp.spritesheet->Some_0.handle.id,
            ) {
                seq![
                    Instance {
                        sheet: sp.spritesheet->Some_0.handle,
                        location: this,
                        uv_width: uvw as i64,
                        uv_height: uvh as i64,
                        tile: sp.tile,
                        palette: sp.palette,
                        color: ColorRgb { r: 0, g: 0, b: 0 },
                    },
                ]
            } else {
                Seq::empty()
            };
            (
                insts,
                seq![(path, this, uvw as i64, uvh as i64)],
                spec_zmax(wm, this.z_index as int),
            )
        },
        NodeKind::Text(t) => {
            if t.font is Some && t.char_size is Some && fonts.contains_key(
                t.font->Some_0.handle.id,
            ) {
                let insts = spec_text_instances(
                    t,
                    fonts[t.font->Some_0.handle.id],
                    this,
                    small,
                    screen,
                );
                (
                    insts,
                    seq![(path, this, SCALE as i64, SCALE as i64)],
                    spec_zmax(wm, this.z_index as int),
                )
            } else {
                (Seq::empty(), Seq::empty(), wm)
            }
        },
        NodeKind::Stack(s) => {
            let rects = spec_stack_rects(s.children@, this);
            spec_arrange_kids(
                s.children@,
                rects,
                spec_zmax(wm, this.z_index as int),
                path,
                0,
                sheets,
                fonts,
                screen,
            )
        },
        NodeKind::Row(s) => {
            let used = spec_row_used(s.children@, this, screen);
            let scount = spec_stretch_count(s.children@);
            let empty_space = sub_floor(this.size.width as int, used);
            let sw = if scount >= 1 {
                empty_space / scount
            } else {
                0
            };
            let rem = if scount >= 1 {
                empty_space % scount
            } else {
                0
            };
            let rects = spec_row_rects(
                s.children@,
                this,
                this.position.x as int,
                scount,
                sw,
                rem,
                screen,
            );
            spec_arrange_kids(
                s.children@,
                rects,
                spec_zmax(wm, this.z_index as int),
                path,
                0,
                sheets,
                fonts,
                screen,
            )
        },
        NodeKind::Column(s) => {
            let used = spec_column_used(s.children@, this, screen);
            let scount = spec_stretch_count(s.children@);
            let empty_space = sub_floor(this.size.height as int, used);
            let sh = if scount >= 1 {
                empty_space / scount
            } else {
                0
            };
            let rem = if scount >= 1 {
                empty_space % scount
            } else {
                0
            };
            let rects = spec_column_rects(
                s.children@,
                this,
                this.position.y as int,
                scount,
                sh,
                rem,
                screen,
            );
            spec_arrange_kids(
                s.children@,
                rects,
                spec_zmax(wm, this.z_index as int),
                path,
                0,
                sheets,
                fonts,
                screen,
            )
        },
        NodeKind::Wrap(s) => {
            let rects = spec_wrap_rects_from(
                s.children@,
                0,
                this,
                this.position.y as int,
                screen,
            );
            spec_arrange_kids(
                s.children@,
                rects,
                spec_zmax(wm, this.z_index as int),
                path,
                0,
                sheets,
                fonts,
                screen,
            )
        },
        NodeKind::Grid(g) => {
            match g.grid_size {
                None => (Seq::empty(), Seq::empty(), wm),
                Some(gs) => {
                    let kids2 = spec_grid_kids(g.children@, screen);
                    let cell_w = spec_cell_axis(gs.width, Axis::Horizontal, kids2.1, screen);
                    let cell_h = spec_cell_axis(gs.height, Axis::Vertical, kids2.1, screen);
                    let rects = spec_grid_rects(
                        g.children@,
                        this,
                        cell_w,
                        cell_h,
                        0,
                        this.position.y as int,
                    );
                    spec_arrange_kids(
                        g.children@,
                        rects,
                        spec_zmax(wm, this.z_index as int),
                        path,
                        0,
                        sheets,
                        fonts,
                        screen,
                    )
                },
            }
        },
        NodeKind::Border(b) => {
            match b.quadrants {
                None => (Seq::empty(), Seq::empty(), wm),
                Some(q) => match b.border_size {
                    None => (Seq::empty(), Seq::empty(), wm),
                    Some(bs) => {
                        let rects = spec_border_rects(bs, this, small, screen);
                        spec_arrange_quads_from(
                            q,
                            rects,
                            spec_zmax(wm, this.z_index as int),
                            path,
                            0,
                            sheets,
                            fonts,
                            screen,
                        )
                    },
                },
            }
        },
    }
}

/// Arrange a container's children left to right against their assigned
/// rectangles: each child starts at the current watermark, so every
/// child draws at or above everything arranged before it.
pub open spec fn spec_arrange_kids(
    kids: Seq<Node>,
    rects: Seq<(RealPosition, RealSize)>,
    wm: int,
    path: Seq<usize>,
    idx: int,
    sheets: Map<u64, SheetData>,
    fonts: Map<u64, FontData>,
    screen: ScreenSize,
) -> (Seq<Instance>, Seq<(Seq<usize>, RealLocation, i64, i64)>, int)
    decreases kids,
{
    if kids.len() == 0 || rects.len() == 0 {
        (Seq::empty(), Seq::empty(), wm)
    } else if !kids[0].visible {
        spec_arrange_kids(
            kids.drop_first(),
            rects.drop_first(),
            wm,
            path,
            idx + 1,
            sheets,
            fonts,
            screen,
        )
    } else {
        let cp = RealLocation {
            position: rects[0].0,
            size: rects[0].1,
            z_index: wm as i64,
        };
        let r0 = spec_arrange(kids[0], cp, wm, path.push(idx as usize), sheets, fonts, screen);
        let rest = spec_arrange_kids(
            kids.drop_first(),
            rects.drop_first(),
            r0.2,
            path,
            idx + 1,
            sheets,
            fonts,
            screen,
        );
        (r0.0 + rest.0, r0.1 + rest.1, rest.2)
    }
}


/// The quadrants by drawing order.
pub open spec fn quad_at(q: Quadrants, k: int) -> Node {
    if k == 0 {
        q.up_left
    } else if k == 1 {
        q.up
    } else if k == 2 {
        q.up_right
    } else if k == 3 {
        q.left
    } else if k == 4 {
        q.center
    } else if k == 5 {
        q.right
    } else if k == 6 {
        q.down_left
    } else if k == 7 {
        q.down
    } else {
        q.down_right
    }
}

/// Arrange the quadrants from the `k`-th on, threading the watermark
/// through, each against its assigned rectangle.
pub open spec fn spec_arrange_quads_from(
    q: Quadrants,
    rects: Seq<(RealPosition, RealSize)>,
    wm: int,
    path: Seq<usize>,
    k: int,
    sheets: Map<u64, SheetData>,
    fonts: Map<u64, FontData>,
    screen: ScreenSize,
) -> (Seq<Instance>, Seq<(Seq<usize>, RealLocation, i64, i64)>, int)
    decreases q, 9 - k,
{
    if k < 0 || k >= 9 {
        (Seq::empty(), Seq::empty(), wm)
    } else {
        let n = quad_at(q, k);
        let r0 = if n.visible {
            spec_arrange(
                n,
                RealLocation { position: rects[k].0, size: rects[k].1, z_index: wm as i64 },
                wm,
                path.push(k as usize),
                sheets,
                fonts,
                screen,
            )
        } else {
            (
                Seq::<Instance>::empty(),
                Seq::<(Seq<usize>, RealLocation, i64, i64)>::empty(),
                wm,
            )
        };
        let rest = spec_arrange_quads_from(q, rects, r0.2, path, k + 1, sheets, fonts, screen);
        (r0.0 + rest.0, r0.1 + rest.1, rest.2)
    }
}

/// Every stack child gets the stack's own rectangle.
pub open spec fn spec_stack_rects(kids: Seq<Node>, this: RealLocation) -> Seq<
    (RealPosition, RealSize),
> {
    Seq::new(kids.len(), |i: int| (this.position, this.size))
}

/// A child's arranged width in a row: its declared width resolved
/// against the row's interior, clamped at zero.
pub open spec fn spec_child_w(c: Node, this: RealLocation, screen: ScreenSize) -> int {
    sub_size(
        spec_resolve(
            c.location.size.width,
            Axis::Horizontal,
            this.size.width as int,
            this.size.height as int,
            spec_min_size(c, screen).width as int,
            spec_min_size(c, screen).height as int,
            screen,
        ),
        0,
    )
}

/// A child's arranged height in a column: its declared height resolved
/// against the column's interior, clamped at zero.
pub open spec fn spec_child_h(c: Node, this: RealLocation, screen: ScreenSize) -> int {
    sub_size(
        spec_resolve(
            c.location.size.height,
            Axis::Vertical,
            this.size.width as int,
            this.size.height as int,
            spec_min_size(c, screen).width as int,
            spec_min_size(c, screen).height as int,
            screen,
        ),
        0,
    )
}

/// The width the visible non-stretch children of a row take, added up.
pub open spec fn spec_row_used(s: Seq<Node>, this: RealLocation, screen: ScreenSize) -> int
    decreases s,
{
    if s.len() == 0 {
        0
    } else {
        let rest = spec_row_used(s.drop_last(), this, screen);
        if s.last().visible && !s.last().stretch {
            clamped(rest + spec_child_w(s.last(), this, screen))
        } else {
            rest
        }
    }
}

/// The height the visible non-stretch children of a column take.
pub open spec fn spec_column_used(s: Seq<Node>, this: RealLocation, screen: ScreenSize) -> int
    decreases s,
{
    if s.len() == 0 {
        0
    } else {
        let rest = spec_column_used(s.drop_last(), this, screen);
        if s.last().visible && !s.last().stretch {
            clamped(rest + spec_child_h(s.last(), this, screen))
        } else {
            rest
        }
    }
}

/// How many visible stretch children a container has, capped so counts
/// stay in coordinate range.
pub open spec fn spec_stretch_count(s: Seq<Node>) -> int
    decreases s,
{
    if s.len() == 0 {
        0
    } else {
        let rest = spec_stretch_count(s.drop_last());
        if s.last().visible && s.last().stretch {
            crate::measure::spec_count_inc(rest)
        } else {
            rest
        }
    }
}

/// Row rectangles: a cursor walks right; a non-stretch child takes its
/// own smallest width, a stretch child an even share of the leftover
/// space (the last stretch child also takes the rounding remainder, so
/// the shares fill the leftover space exactly).
pub open spec fn spec_row_rects(
    kids: Seq<Node>,
    this: RealLocation,
    x: int,
    sleft: int,
    sw: int,
    rem: int,
    screen: ScreenSize,
) -> Seq<(RealPosition, RealSize)>
    decreases kids,
{
    if kids.len() == 0 {
        Seq::empty()
    } else {
        let c = kids[0];
        if !c.visible {
            seq![(this.position, RealSize { width: 0, height: 0 })] + spec_row_rects(
                kids.drop_first(),
                this,
                x,
                sleft,
                sw,
                rem,
                screen,
            )
        } else {
            let cw = if c.stretch {
                if sleft == 1 {
                    clamped(sw + rem)
                } else {
                    sw
                }
            } else {
                spec_child_w(c, this, screen)
            };
            let rect = (
                RealPosition { x: x as i64, y: this.position.y },
                RealSize { width: cw as i64, height: this.size.height },
            );
            seq![rect] + spec_row_rects(
                kids.drop_first(),
                this,
                clamped(x + cw),
                if c.stretch {
                    if sleft >= 1 {
                        sleft - 1
                    } else {
                        0
                    }
                } else {
                    sleft
                },
                sw,
                rem,
                screen,
            )
        }
    }
}

/// Column rectangles: the row rule turned on its side.
pub open spec fn spec_column_rects(
    kids: Seq<Node>,
    this: RealLocation,
    y: int,
    sleft: int,
    sh: int,
    rem: int,
    screen: ScreenSize,
) -> Seq<(RealPosition, RealSize)>
    decreases kids,
{
    if kids.len() == 0 {
        Seq::empty()
    } else {
        let c = kids[0];
        if !c.visible {
            seq![(this.position, RealSize { width: 0, height: 0 })] + spec_column_rects(
                kids.drop_first(),
                this,
                y,
                sleft,
                sh,
                rem,
                screen,
            )
        } else {
            let ch = if c.stretch {
                if sleft == 1 {
                    clamped(sh + rem)
                } else {
                    sh
                }
            } else {
                spec_child_h(c, this, screen)
            };
            let rect = (
                RealPosition { x: this.position.x, y: y as i64 },
                RealSize { width: this.size.width, height: ch as i64 },
            );
            seq![rect] + spec_column_rects(
                kids.drop_first(),
                this,
                clamped(y + ch),
                if c.stretch {
                    if sleft >= 1 {
                        sleft - 1
                    } else {
                        0
                    }
                } else {
                    sleft
                },
                sh,
                rem,
                screen,
            )
        }
    }
}

/// Grid rectangles: equal cells walk right and wrap into a new row when
/// the next cell would run past the grid's width and is not alone on
/// its row.
pub open spec fn spec_grid_rects(
    kids: Seq<Node>,
    this: RealLocation,
    cell_w: int,
    cell_h: int,
    w: int,
    y: int,
) -> Seq<(RealPosition, RealSize)>
    decreases kids,
{
    if kids.len() == 0 {
        Seq::empty()
    } else {
        let c = kids[0];
        if !c.visible {
            seq![(this.position, RealSize { width: 0, height: 0 })] + spec_grid_rects(
                kids.drop_first(),
                this,
                cell_w,
                cell_h,
                w,
                y,
            )
        } else {
            let w1 = clamped(w + cell_w);
            let wrapped = w1 > cell_w && w1 > this.size.width as int;
            let w2 = if wrapped {
                cell_w
            } else {
                w1
            };
            let y2 = if wrapped {
                clamped(y + cell_h)
            } else {
                y
            };
            let x = clamped(this.position.x + clamped(w2 - cell_w));
            let rect = (
                RealPosition { x: x as i64, y: y2 as i64 },
                RealSize { width: cell_w as i64, height: cell_h as i64 },
            );
            seq![rect] + spec_grid_rects(kids.drop_first(), this, cell_w, cell_h, w2, y2)
        }
    }
}

/// Where the wrap row that starts the scan ends: the first index whose
/// child would run past the container's width without being alone on
/// the row.  `w` is the width already taken on the row.
pub open spec fn spec_wrap_row_end(
    kids: Seq<Node>,
    i: int,
    w: int,
    max_w: int,
    screen: ScreenSize,
) -> int
    decreases kids.len() - i,
{
    if i < 0 || i >= kids.len() {
        kids.len() as int
    } else if !kids[i].visible {
        spec_wrap_row_end(kids, i + 1, w, max_w, screen)
    } else {
        let cw = spec_min_size(kids[i], screen).width as int;
        let w1 = clamped(w + cw);
        if w1 > cw && w1 > max_w {
            i
        } else {
            spec_wrap_row_end(kids, i + 1, w1, max_w, screen)
        }
    }
}

/// The tallest visible child among a row's children.
pub open spec fn spec_wrap_row_height(kids: Seq<Node>, i: int, end: int, screen: ScreenSize) -> int
    decreases end - i,
{
    if i < 0 || i >= end || i >= kids.len() {
        0
    } else {
        let rest = spec_wrap_row_height(kids, i + 1, end, screen);
        if kids[i].visible {
            let h = spec_min_size(kids[i], screen).height as int;
            if h >= rest {
                h
            } else {
                rest
            }
        } else {
            rest
        }
    }
}

/// The rectangles of one wrap row: children walk right from the row's
/// left edge, each with its own width and the row's shared height.
pub open spec fn spec_wrap_row_rects(
    kids: Seq<Node>,
    i: int,
    end: int,
    this: RealLocation,
    x: int,
    y: int,
    rh: int,
    screen: ScreenSize,
) -> Seq<(RealPosition, RealSize)>
    decreases end - i,
{
    if i < 0 || i >= end || i >= kids.len() {
        Seq::empty()
    } else if !kids[i].visible {
        seq![(this.position, RealSize { width: 0, height: 0 })] + spec_wrap_row_rects(
            kids,
            i + 1,
            end,
            this,
            x,
            y,
            rh,
            screen,
        )
    } else {
        let cw = spec_min_size(kids[i], screen).width as int;
        let rect = (
            RealPosition { x: x as i64, y: y as i64 },
            RealSize { width: cw as i64, height: rh as i64 },
        );
        seq![rect] + spec_wrap_row_rects(
            kids,
            i + 1,
            end,
            this,
            clamped(x + cw),
            y,
            rh,
            screen,
        )
    }
}

/// Wrap rectangles from child `i` on: one row at a time, each row's
/// height the tallest child in it, rows stacked downward.
pub open spec fn spec_wrap_rects_from(
    kids: Seq<Node>,
    i: int,
    this: RealLocation,
    y: int,
    screen: ScreenSize,
) -> Seq<(RealPosition, RealSize)>
    decreases kids.len() - i,
{
    if i < 0 || i >= kids.len() {
        Seq::empty()
    } else {
        let end0 = spec_wrap_row_end(kids, i, 0, this.size.width as int, screen);
        let end1 = if end0 > kids.len() {
            kids.len() as int
        } else {
            end0
        };
        let end = if end1 <= i {
            i + 1
        } else {
            end1
        };
        let rh = spec_wrap_row_height(kids, i, end, screen);
        spec_wrap_row_rects(kids, i, end, this, this.position.x as int, y, rh, screen)
            + spec_wrap_rects_from(kids, end, this, clamped(y + rh), screen)
    }
}

/// The nine border-grid rectangles, in quadrant order: corners take the
/// border extents, edges stretch between them, and the center takes
/// what is left.
pub open spec fn spec_border_rects(
    bs: BorderSize,
    this: RealLocation,
    small: RealSize,
    screen: ScreenSize,
) -> Seq<(RealPosition, RealSize)> {
    let pw = this.size.width as int;
    let ph = this.size.height as int;
    let sw = small.width as int;
    let sh = small.height as int;
    let ext_l = sub_size(spec_resolve(bs.left, Axis::Horizontal, pw, ph, sw, sh, screen), 0);
    let ext_r = sub_size(spec_resolve(bs.right, Axis::Horizontal, pw, ph, sw, sh, screen), 0);
    let ext_u = sub_size(spec_resolve(bs.up, Axis::Vertical, pw, ph, sw, sh, screen), 0);
    let ext_d = sub_size(spec_resolve(bs.down, Axis::Vertical, pw, ph, sw, sh, screen), 0);
    let x_l = this.position.x as int;
    let x_r = clamped(x_l + sub_size(pw, ext_r));
    let y_u = this.position.y as int;
    let y_d = clamped(y_u + sub_size(ph, ext_d));
    let c_w = sub_size(sub_size(pw, ext_l), ext_r);
    let c_h = sub_size(sub_size(ph, ext_u), ext_d);
    let x_c = clamped(x_l + ext_l);
    let y_c = clamped(y_u + ext_u);
    seq![
        (rp(x_l, y_u), rs(ext_l, ext_u)),
        (rp(x_c, y_u), rs(c_w, ext_u)),
        (rp(x_r, y_u), rs(ext_r, ext_u)),
        (rp(x_l, y_c), rs(ext_l, c_h)),
        (rp(x_c, y_c), rs(c_w, c_h)),
        (rp(x_r, y_c), rs(ext_r, c_h)),
        (rp(x_l, y_d), rs(ext_l, ext_d)),
        (rp(x_c, y_d), rs(c_w, ext_d)),
        (rp(x_r, y_d), rs(ext_r, ext_d)),
    ]
}

/// A position from mathematical coordinates.
pub open spec fn rp(x: int, y: int) -> RealPosition {
    RealPosition { x: x as i64, y: y as i64 }
}

/// A size from mathematical extents.
pub open spec fn rs(w: int, h: int) -> RealSize {
    RealSize { width: w as i64, height: h as i64 }
}


/// Copy a path so a render entry can own it.
fn copy_path(p: &Vec<usize>) -> (r: Vec<usize>)
    ensures
        r@ == p@,
{
    let mut r: Vec<usize> = Vec::new();
    let n = p.len();
    let mut i: usize = 0;
    while i < n
        invariant
            n == p@.len(),
            0 <= i <= n,
            r@ == p@.take(i as int),
        decreases n - i,
    {
        r.push(p[i]);
        proof {
            assert(p@.take(i + 1 as int) =~= p@.take(i as int).push(p@[i as int]));
        }
        i = i + 1;
    }
    proof {
        assert(p@.take(n as int) =~= p@);
    }
    r
}

/// All fonts a registry holds have well-formed glyph grids.
pub open spec fn fonts_wf(fonts: Map<u64, FontData>) -> bool {
    forall|k: u64| fonts.contains_key(k) ==> (#[trigger] fonts[k]).wf()
}

/// Arrange one visible subtree: emit its draw records and rendered-leaf
/// entries in drawing order, and return the advanced stacking watermark.
/// Must not be called on an invisible node.
#[verifier::rlimit(100)]
#[verifier::spinoff_prover]
pub fn arrange(
    n: &Node,
    m: &Meas,
    parent: &RealLocation,
    wm: i64,
    path: &mut Vec<usize>,
    sheets: &Handles<SheetData>,
    fonts: &Handles<FontData>,
    screen: &ScreenSize,
    insts: &mut Vec<Instance>,
    ents: &mut Vec<RenderEntry>,
) -> (wm2: i64)
    requires
        n.valid(),
        meas_matches(*m, *n, *screen),
        parent.wf(),
        screen.wf(),
        sheets.wf(),
        fonts.wf(),
        fonts_wf(fonts.spec_map()),
        0 <= wm <= MAX_COORD,
    ensures
        ({
            let s = spec_arrange(
                *n,
                *parent,
                wm as int,
                old(path)@,
                sheets.spec_map(),
                fonts.spec_map(),
                *screen,
            );
            &&& final(insts)@ == old(insts)@ + s.0
            &&& re_views(final(ents)@) == re_views(old(ents)@) + s.1
            &&& wm2 as int == s.2
        }),
        wm <= wm2 <= MAX_COORD,
        final(path)@ == old(path)@,
    decreases *n,
{
    let small = m.size;
    let this = place(&n.location, parent, &small, screen);
    match &n.kind {
        NodeKind::Sprite(sp) => {
            let uvw = repeat_uv(
                sp.repeat_tile.width,
                Axis::Horizontal,
                &parent.size,
                &small,
                screen,
                this.size.width,
            );
            let uvh = repeat_uv(
                sp.repeat_tile.height,
                Axis::Vertical,
                &parent.size,
                &small,
                screen,
                this.size.height,
            );
            let sheet = sp.spritesheet.as_ref().unwrap();
            if sheets.contains(&sheet.handle) {
                let inst = Instance {
                    sheet: sheet.handle,
                    location: this,
                    uv_width: uvw,
                    uv_height: uvh,
                    tile: sp.tile,
                    palette: sp.palette,
                    color: ColorRgb { r: 0, g: 0, b: 0 },
                };
                insts.push(inst);
                proof {
                    assert(insts@ =~= old(insts)@ + seq![inst]);
                }
            } else {
                proof {
                    assert(insts@ =~= old(insts)@ + Seq::<Instance>::empty());
                }
            }
            let entry = RenderEntry {
                path: copy_path(path),
                location: this,
                uv_width: uvw,
                uv_height: uvh,
            };
            ents.push(entry);
            proof {
                assert(re_views(ents@) =~= re_views(old(ents)@) + seq![
                    (old(path)@, this, uvw, uvh),
                ]);
            }
            max_i64(wm, this.z_index)
        },
        NodeKind::Text(t) => {
            let font = t.font.as_ref().unwrap();
            match fonts.get(&font.handle) {
                Some(fd) => {
                    let mut glyphs = text_instances(t, fd, &this, &small, screen);
                    let ghost glyphs0 = glyphs@;
                    insts.append(&mut glyphs);
                    let entry = RenderEntry {
                        path: copy_path(path),
                        location: this,
                        uv_width: SCALE,
                        uv_height: SCALE,
                    };
                    ents.push(entry);
                    proof {
                        assert(re_views(ents@) =~= re_views(old(ents)@) + seq![
                            (old(path)@, this, SCALE as i64, SCALE as i64),
                        ]);
                    }
                    max_i64(wm, this.z_index)
                },
                None => {
                    proof {
                        assert(insts@ =~= old(insts)@ + Seq::<Instance>::empty());
                        assert(re_views(ents@) =~= re_views(old(ents)@) + Seq::<(
                            Seq<usize>,
                            RealLocation,
                            i64,
                            i64,
                        )>::empty());
                    }
                    wm
                },
            }
        },
        NodeKind::Stack(s) => {
            let rects = stack_rects(&s.children, &this);
            let wm0 = max_i64(wm, this.z_index);
            arrange_kids(
                &s.children,
                &m.children,
                &rects,
                wm0,
                path,
                sheets,
                fonts,
                screen,
                insts,
                ents,
            )
        },
        NodeKind::Row(s) => {
            let used = row_used(&s.children, &m.children, &this, screen);
            let scount = stretch_count(&s.children);
            let empty_space = sub_clamp0(this.size.width, used);
            let sw: i64 = if scount >= 1 {
                div_count(empty_space, scount as u64)
            } else {
                0
            };
            let rem: i64 = if scount >= 1 {
                rem_count(empty_space, scount as u64)
            } else {
                0
            };
            let rects = row_rects(&s.children, &m.children, &this, scount, sw, rem, screen);
            let wm0 = max_i64(wm, this.z_index);
            arrange_kids(
                &s.children,
                &m.children,
                &rects,
                wm0,
                path,
                sheets,
                fonts,
                screen,
                insts,
                ents,
            )
        },
        NodeKind::Column(s) => {
            let used = column_used(&s.children, &m.children, &this, screen);
            let scount = stretch_count(&s.children);
            let empty_space = sub_clamp0(this.size.height, used);
            let sh: i64 = if scount >= 1 {
                div_count(empty_space, scount as u64)
            } else {
                0
            };
            let rem: i64 = if scount >= 1 {
                rem_count(empty_space, scount as u64)
            } else {
                0
            };
            let rects = column_rects(&s.children, &m.children, &this, scount, sh, rem, screen);
            let wm0 = max_i64(wm, this.z_index);
            arrange_kids(
                &s.children,
                &m.children,
                &rects,
                wm0,
                path,
                sheets,
                fonts,
                screen,
                insts,
                ents,
            )
        },
        NodeKind::Wrap(s) => {
            let rects = wrap_rects(&s.children, &m.children, &this, screen);
            let wm0 = max_i64(wm, this.z_index);
            arrange_kids(
                &s.children,
                &m.children,
                &rects,
                wm0,
                path,
                sheets,
                fonts,
                screen,
                insts,
                ents,
            )
        },
        NodeKind::Grid(g) => {
            let gs = g.grid_size.as_ref().unwrap();
            let kids2 = grid_kids(&g.children, &m.children, screen);
            let cell_w = cell_axis(gs.width, Axis::Horizontal, &kids2.1, screen);
            let cell_h = cell_axis(gs.height, Axis::Vertical, &kids2.1, screen);
            let rects = grid_rects(&g.children, &this, cell_w, cell_h);
            let wm0 = max_i64(wm, this.z_index);
            arrange_kids(
                &g.children,
                &m.children,
                &rects,
                wm0,
                path,
                sheets,
                fonts,
                screen,
                insts,
                ents,
            )
        },
        NodeKind::Border(b) => {
            let bs = b.border_size.as_ref().unwrap();
            let q = b.quadrants.as_ref().unwrap();
            let rects = border_rects(bs, &this, &small, screen);
            let wm0 = max_i64(wm, this.z_index);
            arrange_quadrants(
                q,
                &m.children,
                &rects,
                wm0,
                path,
                sheets,
                fonts,
                screen,
                insts,
                ents,
            )
        },
    }
}

/// Arrange a container's children against their assigned rectangles.
fn arrange_kids(
    kids: &Vec<Node>,
    ms: &Vec<Meas>,
    rects: &Vec<(RealPosition, RealSize)>,
    wm: i64,
    path: &mut Vec<usize>,
    sheets: &Handles<SheetData>,
    fonts: &Handles<FontData>,
    screen: &ScreenSize,
    insts: &mut Vec<Instance>,
    ents: &mut Vec<RenderEntry>,
) -> (wm2: i64)
    requires
        crate::node::spec_check_seq(kids@) is Ok,
        kids_measured(kids@, ms@, *screen),
        rects@.len() == kids@.len(),
        forall|j: int| 0 <= j < rects@.len() ==> rect_wf(#[trigger] rects@[j]),
        screen.wf(),
        sheets.wf(),
        fonts.wf(),
        fonts_wf(fonts.spec_map()),
        0 <= wm <= MAX_COORD,
    ensures
        ({
            let s = spec_arrange_kids(
                kids@,
                rects@,
                wm as int,
                old(path)@,
                0,
                sheets.spec_map(),
                fonts.spec_map(),
                *screen,
            );
            &&& final(insts)@ == old(insts)@ + s.0
            &&& re_views(final(ents)@) == re_views(old(ents)@) + s.1
            &&& wm2 as int == s.2
        }),
        wm <= wm2 <= MAX_COORD,
        final(path)@ == old(path)@,
    decreases kids@,
{
    proof {
        crate::measure::lemma_check_seq_ok(kids@);
    }
    let ghost insts0 = insts@;
    let ghost ents0 = ents@;
    let ghost full = spec_arrange_kids(
        kids@,
        rects@,
        wm as int,
        path@,
        0,
        sheets.spec_map(),
        fonts.spec_map(),
        *screen,
    );
    let n = kids.len();
    let mut i: usize = 0;
    let mut w: i64 = wm;
    proof {
        assert(kids@.skip(0) =~= kids@);
        assert(rects@.skip(0) =~= rects@);
    }
    while i < n
        invariant
            n == kids@.len(),
            n == ms@.len(),
            n == rects@.len(),
            0 <= i <= n,
            forall|j: int|
                0 <= j < kids@.len() ==> (#[trigger] crate::node::spec_check(kids@[j])) is Ok,
            kids_measured(kids@, ms@, *screen),
            forall|j: int| 0 <= j < rects@.len() ==> rect_wf(#[trigger] rects@[j]),
            screen.wf(),
            sheets.wf(),
            fonts.wf(),
            fonts_wf(fonts.spec_map()),
            0 <= wm <= w <= MAX_COORD,
            path@ == old(path)@,
            ({
                let rest = spec_arrange_kids(
                    kids@.skip(i as int),
                    rects@.skip(i as int),
                    w as int,
                    old(path)@,
                    i as int,
                    sheets.spec_map(),
                    fonts.spec_map(),
                    *screen,
                );
                &&& insts@ + rest.0 == insts0 + full.0
                &&& re_views(ents@) + rest.1 == re_views(ents0) + full.1
                &&& rest.2 == full.2
            }),
        decreases n - i,
    {
        proof {
            assert(kids@.skip(i as int)[0] == kids@[i as int]);
            assert(kids@.skip(i as int).drop_first() =~= kids@.skip(i + 1));
            assert(rects@.skip(i as int)[0] == rects@[i as int]);
            assert(rects@.skip(i as int).drop_first() =~= rects@.skip(i + 1));
        }
        let ghost rest_i = spec_arrange_kids(
            kids@.skip(i as int),
            rects@.skip(i as int),
            w as int,
            old(path)@,
            i as int,
            sheets.spec_map(),
            fonts.spec_map(),
            *screen,
        );
        if kids[i].visible {
            proof {
                assert(rect_wf(rects@[i as int]));
            }
            let cp = RealLocation { position: rects[i].0, size: rects[i].1, z_index: w };
            path.push(i);
            let ghost insts_before = insts@;
            let ghost ents_before = ents@;
            let w2 = arrange(&kids[i], &ms[i], &cp, w, path, sheets, fonts, screen, insts, ents);
            path.pop();
            proof {
                assert(path@ =~= old(path)@);
                let r0 = spec_arrange(
                    kids@[i as int],
                    cp,
                    w as int,
                    old(path)@.push(i as usize),
                    sheets.spec_map(),
                    fonts.spec_map(),
                    *screen,
                );
                let rest_n = spec_arrange_kids(
                    kids@.skip(i + 1),
                    rects@.skip(i + 1),
                    w2 as int,
                    old(path)@,
                    i + 1,
                    sheets.spec_map(),
                    fonts.spec_map(),
                    *screen,
                );
                assert(rest_i.0 == r0.0 + rest_n.0);
                assert(rest_i.1 == r0.1 + rest_n.1);
                assert((insts_before + r0.0) + rest_n.0 =~= insts_before + (r0.0 + rest_n.0));
                assert((re_views(ents_before) + r0.1) + rest_n.1 =~= re_views(ents_before) + (
                r0.1 + rest_n.1));
            }
            w = w2;
        } else {
            proof {
                let rest_n = spec_arrange_kids(
                    kids@.skip(i + 1),
                    rects@.skip(i + 1),
                    w as int,
                    old(path)@,
                    i + 1,
                    sheets.spec_map(),
                    fonts.spec_map(),
                    *screen,
                );
                assert(rest_i == rest_n);
            }
        }
        i = i + 1;
    }
    proof {
        assert(kids@.skip(n as int) =~= Seq::<Node>::empty());
        assert(rects@.skip(n as int) =~= Seq::<(RealPosition, RealSize)>::empty());
        assert(insts@ + Seq::<Instance>::empty() =~= insts@);
        assert(re_views(ents@) + Seq::<(Seq<usize>, RealLocation, i64, i64)>::empty()
            =~= re_views(ents@));
    }
    w
}

/// The first fault among the quadrants implies none in any quadrant.
pub(crate) proof fn lemma_quadrants_ok(q: Quadrants)
    requires
        crate::node::spec_check_quadrants(q) is Ok,
    ensures
        forall|k: int| 0 <= k < 9 ==> (#[trigger] crate::node::spec_check(quad_at(q, k))) is Ok,
{
    assert forall|k: int| 0 <= k < 9 implies (#[trigger] crate::node::spec_check(
        quad_at(q, k),
    )) is Ok by {
        assert(crate::node::spec_check(q.up_left) is Ok);
        assert(crate::node::spec_check(q.up) is Ok);
        assert(crate::node::spec_check(q.up_right) is Ok);
        assert(crate::node::spec_check(q.left) is Ok);
        assert(crate::node::spec_check(q.center) is Ok);
        assert(crate::node::spec_check(q.right) is Ok);
        assert(crate::node::spec_check(q.down_left) is Ok);
        assert(crate::node::spec_check(q.down) is Ok);
        assert(crate::node::spec_check(q.down_right) is Ok);
    }
}

/// One quadrant by drawing order.
pub(crate) fn quad_ref(q: &Quadrants, k: usize) -> (r: &Node)
    requires
        k < 9,
    ensures
        *r == quad_at(*q, k as int),
{
    if k == 0 {
        &q.up_left
    } else if k == 1 {
        &q.up
    } else if k == 2 {
        &q.up_right
    } else if k == 3 {
        &q.left
    } else if k == 4 {
        &q.center
    } else if k == 5 {
        &q.right
    } else if k == 6 {
        &q.down_left
    } else if k == 7 {
        &q.down
    } else {
        &q.down_right
    }
}

/// Arrange the nine quadrants against their rectangles.
fn arrange_quadrants(
    q: &Quadrants,
    ms: &Vec<Meas>,
    rects: &Vec<(RealPosition, RealSize)>,
    wm: i64,
    path: &mut Vec<usize>,
    sheets: &Handles<SheetData>,
    fonts: &Handles<FontData>,
    screen: &ScreenSize,
    insts: &mut Vec<Instance>,
    ents: &mut Vec<RenderEntry>,
) -> (wm2: i64)
    requires
        crate::node::spec_check_quadrants(*q) is Ok,
        kids_measured(quadrant_seq(*q), ms@, *screen),
        rects@.len() == 9,
        forall|j: int| 0 <= j < rects@.len() ==> rect_wf(#[trigger] rects@[j]),
        screen.wf(),
        sheets.wf(),
        fonts.wf(),
        fonts_wf(fonts.spec_map()),
        0 <= wm <= MAX_COORD,
    ensures
        ({
            let s = spec_arrange_quads_from(
                *q,
                rects@,
                wm as int,
                old(path)@,
                0,
                sheets.spec_map(),
                fonts.spec_map(),
                *screen,
            );
            &&& final(insts)@ == old(insts)@ + s.0
            &&& re_views(final(ents)@) == re_views(old(ents)@) + s.1
            &&& wm2 as int == s.2
        }),
        wm <= wm2 <= MAX_COORD,
        final(path)@ == old(path)@,
    decreases *q,
{
    proof {
        lemma_quadrants_ok(*q);
        assert forall|k: int| 0 <= k < 9 implies quadrant_seq(*q)[k] == quad_at(*q, k) by {}
    }
    let ghost insts0 = insts@;
    let ghost ents0 = ents@;
    let ghost full = spec_arrange_quads_from(
        *q,
        rects@,
        wm as int,
        path@,
        0,
        sheets.spec_map(),
        fonts.spec_map(),
        *screen,
    );
    let mut k: usize = 0;
    let mut w: i64 = wm;
    while k < 9
        invariant
            0 <= k <= 9,
            forall|j: int| 0 <= j < 9 ==> (#[trigger] crate::node::spec_check(quad_at(*q, j))) is Ok,
            kids_measured(quadrant_seq(*q), ms@, *screen),
            forall|j: int| 0 <= j < 9 ==> quadrant_seq(*q)[j] == quad_at(*q, j),
            rects@.len() == 9,
            ms@.len() == 9,
            forall|j: int| 0 <= j < rects@.len() ==> rect_wf(#[trigger] rects@[j]),
            screen.wf(),
            sheets.wf(),
            fonts.wf(),
            fonts_wf(fonts.spec_map()),
            0 <= wm <= w <= MAX_COORD,
            path@ == old(path)@,
            ({
                let rest = spec_arrange_quads_from(
                    *q,
                    rects@,
                    w as int,
                    old(path)@,
                    k as int,
                    sheets.spec_map(),
                    fonts.spec_map(),
                    *screen,
                );
                &&& insts@ + rest.0 == insts0 + full.0
                &&& re_views(ents@) + rest.1 == re_views(ents0) + full.1
                &&& rest.2 == full.2
            }),
        decreases 9 - k,
    {
        let ghost rest_k = spec_arrange_quads_from(
            *q,
            rects@,
            w as int,
            old(path)@,
            k as int,
            sheets.spec_map(),
            fonts.spec_map(),
            *screen,
        );
        let child = quad_ref(q, k);
        if child.visible {
            proof {
                assert(rect_wf(rects@[k as int]));
            }
            let cp = RealLocation { position: rects[k].0, size: rects[k].1, z_index: w };
            path.push(k);
            let ghost insts_before = insts@;
            let ghost ents_before = ents@;
            let w2 = arrange(child, &ms[k], &cp, w, path, sheets, fonts, screen, insts, ents);
            path.pop();
            proof {
                assert(path@ =~= old(path)@);
                let r0 = spec_arrange(
                    quad_at(*q, k as int),
                    cp,
                    w as int,
                    old(path)@.push(k as usize),
                    sheets.spec_map(),
                    fonts.spec_map(),
                    *screen,
                );
                let rest_n = spec_arrange_quads_from(
                    *q,
                    rects@,
                    w2 as int,
                    old(path)@,
                    k + 1,
                    sheets.spec_map(),
                    fonts.spec_map(),
                    *screen,
                );
                assert(rest_k.0 == r0.0 + rest_n.0);
                assert(rest_k.1 == r0.1 + rest_n.1);
                assert((insts_before + r0.0) + rest_n.0 =~= insts_before + (r0.0 + rest_n.0));
                assert((re_views(ents_before) + r0.1) + rest_n.1 =~= re_views(ents_before) + (
                r0.1 + rest_n.1));
            }
            w = w2;
        } else {
            proof {
                let rest_n = spec_arrange_quads_from(
                    *q,
                    rects@,
                    w as int,
                    old(path)@,
                    k + 1,
                    sheets.spec_map(),
                    fonts.spec_map(),
                    *screen,
                );
                assert(rest_k.0 =~= rest_n.0);
                assert(rest_k.1 =~= rest_n.1);
            }
        }
        k = k + 1;
    }
    proof {
        assert(insts@ + Seq::<Instance>::empty() =~= insts@);
        assert(re_views(ents@) + Seq::<(Seq<usize>, RealLocation, i64, i64)>::empty()
            =~= re_views(ents@));
    }
    w
}

/// A child's arranged extent on the container's main axis.
fn child_w(c: &Node, m: &Meas, this: &RealLocation, screen: &ScreenSize) -> (r: i64)
    requires
        crate::node::spec_check(*c) is Ok,
        meas_matches(*m, *c, *screen) || !c.visible,
        c.visible ==> meas_matches(*m, *c, *screen),
        this.wf(),
        screen.wf(),
        c.visible,
    ensures
        r as int == spec_child_w(*c, *this, *screen),
        0 <= r <= MAX_COORD,
{
    let v = resolve(
        c.location.size.width,
        Axis::Horizontal,
        this.size.width,
        this.size.height,
        m.size.width,
        m.size.height,
        screen,
    );
    sub_clamp0(v, 0)
}

/// A child's arranged extent on a column's main axis.
fn child_h(c: &Node, m: &Meas, this: &RealLocation, screen: &ScreenSize) -> (r: i64)
    requires
        crate::node::spec_check(*c) is Ok,
        c.visible ==> meas_matches(*m, *c, *screen),
        this.wf(),
        screen.wf(),
        c.visible,
    ensures
        r as int == spec_child_h(*c, *this, *screen),
        0 <= r <= MAX_COORD,
{
    let v = resolve(
        c.location.size.height,
        Axis::Vertical,
        this.size.width,
        this.size.height,
        m.size.width,
        m.size.height,
        screen,
    );
    sub_clamp0(v, 0)
}

/// The width a row's visible non-stretch children take.
fn row_used(kids: &Vec<Node>, ms: &Vec<Meas>, this: &RealLocation, screen: &ScreenSize) -> (r: i64)
    requires
        crate::node::spec_check_seq(kids@) is Ok,
        kids_measured(kids@, ms@, *screen),
        this.wf(),
        screen.wf(),
    ensures
        r as int == spec_row_used(kids@, *this, *screen),
        0 <= r <= MAX_COORD,
{
    proof {
        crate::measure::lemma_check_seq_ok(kids@);
        assert(kids@.take(0) =~= Seq::<Node>::empty());
    }
    let n = kids.len();
    let mut acc: i64 = 0;
    let mut i: usize = 0;
    while i < n
        invariant
            n == kids@.len(),
            n == ms@.len(),
            0 <= i <= n,
            kids_measured(kids@, ms@, *screen),
            forall|j: int|
                0 <= j < kids@.len() ==> (#[trigger] crate::node::spec_check(kids@[j])) is Ok,
            this.wf(),
            screen.wf(),
            acc as int == spec_row_used(kids@.take(i as int), *this, *screen),
            0 <= acc <= MAX_COORD,
        decreases n - i,
    {
        proof {
            assert(kids@.take(i + 1 as int).drop_last() =~= kids@.take(i as int));
            assert(kids@.take(i + 1 as int).last() == kids@[i as int]);
        }
        if kids[i].visible && !kids[i].stretch {
            let w = child_w(&kids[i], &ms[i], this, screen);
            acc = add_sat(acc, w);
        }
        i = i + 1;
    }
    proof {
        assert(kids@.take(n as int) =~= kids@);
    }
    acc
}

/// The height a column's visible non-stretch children take.
fn column_used(kids: &Vec<Node>, ms: &Vec<Meas>, this: &RealLocation, screen: &ScreenSize) -> (r:
    i64)
    requires
        crate::node::spec_check_seq(kids@) is Ok,
        kids_measured(kids@, ms@, *screen),
        this.wf(),
        screen.wf(),
    ensures
        r as int == spec_column_used(kids@, *this, *screen),
        0 <= r <= MAX_COORD,
{
    proof {
        crate::measure::lemma_check_seq_ok(kids@);
        assert(kids@.take(0) =~= Seq::<Node>::empty());
    }
    let n = kids.len();
    let mut acc: i64 = 0;
    let mut i: usize = 0;
    while i < n
        invariant
            n == kids@.len(),
            n == ms@.len(),
            0 <= i <= n,
            kids_measured(kids@, ms@, *screen),
            forall|j: int|
                0 <= j < kids@.len() ==> (#[trigger] crate::node::spec_check(kids@[j])) is Ok,
            this.wf(),
            screen.wf(),
            acc as int == spec_column_used(kids@.take(i as int), *this, *screen),
            0 <= acc <= MAX_COORD,
        decreases n - i,
    {
        proof {
            assert(kids@.take(i + 1 as int).drop_last() =~= kids@.take(i as int));
            assert(kids@.take(i + 1 as int).last() == kids@[i as int]);
        }
        if kids[i].visible && !kids[i].stretch {
            let h = child_h(&kids[i], &ms[i], this, screen);
            acc = add_sat(acc, h);
        }
        i = i + 1;
    }
    proof {
        assert(kids@.take(n as int) =~= kids@);
    }
    acc
}

/// How many visible stretch children a container has, capped.
fn stretch_count(kids: &Vec<Node>) -> (r: i64)
    ensures
        r as int == spec_stretch_count(kids@),
        0 <= r <= MAX_COORD,
{
    let n = kids.len();
    let mut count: i64 = 0;
    let mut i: usize = 0;
    proof {
        assert(kids@.take(0) =~= Seq::<Node>::empty());
    }
    while i < n
        invariant
            n == kids@.len(),
            0 <= i <= n,
            count as int == spec_stretch_count(kids@.take(i as int)),
            0 <= count <= MAX_COORD,
        decreases n - i,
    {
        proof {
            assert(kids@.take(i + 1 as int).drop_last() =~= kids@.take(i as int));
            assert(kids@.take(i + 1 as int).last() == kids@[i as int]);
        }
        if kids[i].visible && kids[i].stretch {
            if count < MAX_COORD {
                count = count + 1;
            }
        }
        i = i + 1;
    }
    proof {
        assert(kids@.take(n as int) =~= kids@);
    }
    count
}

/// Every stack child's rectangle: the stack's own.
fn stack_rects(kids: &Vec<Node>, this: &RealLocation) -> (r: Vec<(RealPosition, RealSize)>)
    requires
        this.wf(),
    ensures
        r@ == spec_stack_rects(kids@, *this),
        r@.len() == kids@.len(),
        forall|j: int| 0 <= j < r@.len() ==> rect_wf(#[trigger] r@[j]),
{
    let n = kids.len();
    let mut out: Vec<(RealPosition, RealSize)> = Vec::new();
    let mut i: usize = 0;
    while i < n
        invariant
            n == kids@.len(),
            0 <= i <= n,
            this.wf(),
            out@.len() == i,
            forall|j: int| 0 <= j < i ==> (#[trigger] out@[j]) == (this.position, this.size),
        decreases n - i,
    {
        out.push((this.position, this.size));
        i = i + 1;
    }
    proof {
        assert(out@ =~= spec_stack_rects(kids@, *this));
    }
    out
}

/// Row rectangles, walking the cursor right.
fn row_rects(
    kids: &Vec<Node>,
    ms: &Vec<Meas>,
    this: &RealLocation,
    sleft0: i64,
    sw: i64,
    rem: i64,
    screen: &ScreenSize,
) -> (r: Vec<(RealPosition, RealSize)>)
    requires
        crate::node::spec_check_seq(kids@) is Ok,
        kids_measured(kids@, ms@, *screen),
        this.wf(),
        screen.wf(),
        0 <= sleft0 <= MAX_COORD,
        0 <= sw <= MAX_COORD,
        0 <= rem <= MAX_COORD,
    ensures
        r@ == spec_row_rects(
            kids@,
            *this,
            this.position.x as int,
            sleft0 as int,
            sw as int,
            rem as int,
            *screen,
        ),
        r@.len() == kids@.len(),
        forall|j: int| 0 <= j < r@.len() ==> rect_wf(#[trigger] r@[j]),
{
    let ghost full = spec_row_rects(
        kids@,
        *this,
        this.position.x as int,
        sleft0 as int,
        sw as int,
        rem as int,
        *screen,
    );
    let n = kids.len();
    let mut out: Vec<(RealPosition, RealSize)> = Vec::new();
    let mut x: i64 = this.position.x;
    let mut sleft: i64 = sleft0;
    let mut i: usize = 0;
    proof {
        crate::measure::lemma_check_seq_ok(kids@);
        assert(kids@.skip(0) =~= kids@);
    }
    while i < n
        invariant
            n == kids@.len(),
            n == ms@.len(),
            0 <= i <= n,
            kids_measured(kids@, ms@, *screen),
            forall|jj: int|
                0 <= jj < kids@.len() ==> (#[trigger] crate::node::spec_check(kids@[jj])) is Ok,
            screen.wf(),
            this.wf(),
            0 <= sw <= MAX_COORD,
            0 <= rem <= MAX_COORD,
            in_range(x as int),
            0 <= sleft <= sleft0,
            out@.len() == i,
            forall|j: int| 0 <= j < out@.len() ==> rect_wf(#[trigger] out@[j]),
            out@ + spec_row_rects(
                kids@.skip(i as int),
                *this,
                x as int,
                sleft as int,
                sw as int,
                rem as int,
                *screen,
            ) == full,
        decreases n - i,
    {
        proof {
            assert(kids@.skip(i as int)[0] == kids@[i as int]);
            assert(kids@.skip(i as int).drop_first() =~= kids@.skip(i + 1));
        }
        let ghost rest = spec_row_rects(
            kids@.skip(i as int),
            *this,
            x as int,
            sleft as int,
            sw as int,
            rem as int,
            *screen,
        );
        let ghost out_before = out@;
        if kids[i].visible {
            let cw: i64 = if kids[i].stretch {
                if sleft == 1 {
                    add_sat(sw, rem)
                } else {
                    sw
                }
            } else {
                child_w(&kids[i], &ms[i], this, screen)
            };
            let rect = (
                RealPosition { x, y: this.position.y },
                RealSize { width: cw, height: this.size.height },
            );
            out.push(rect);
            x = add_sat(x, cw);
            if kids[i].stretch {
                sleft = if sleft >= 1 {
                    sleft - 1
                } else {
                    0
                };
            }
            proof {
                let rest2 = spec_row_rects(
                    kids@.skip(i + 1),
                    *this,
                    x as int,
                    sleft as int,
                    sw as int,
                    rem as int,
                    *screen,
                );
                assert((out_before + seq![rect]) + rest2 =~= out_before + (seq![rect] + rest2));
            }
        } else {
            let rect = (this.position, RealSize { width: 0, height: 0 });
            out.push(rect);
            proof {
                let rest2 = spec_row_rects(
                    kids@.skip(i + 1),
                    *this,
                    x as int,
                    sleft as int,
                    sw as int,
                    rem as int,
                    *screen,
                );
                assert((out_before + seq![rect]) + rest2 =~= out_before + (seq![rect] + rest2));
            }
        }
        i = i + 1;
    }
    proof {
        assert(kids@.skip(n as int) =~= Seq::<Node>::empty());
        assert(out@ + Seq::<(RealPosition, RealSize)>::empty() =~= out@);
    }
    out
}

/// Column rectangles, walking the cursor down.
fn column_rects(
    kids: &Vec<Node>,
    ms: &Vec<Meas>,
    this: &RealLocation,
    sleft0: i64,
    sh: i64,
    rem: i64,
    screen: &ScreenSize,
) -> (r: Vec<(RealPosition, RealSize)>)
    requires
        crate::node::spec_check_seq(kids@) is Ok,
        kids_measured(kids@, ms@, *screen),
        this.wf(),
        screen.wf(),
        0 <= sleft0 <= MAX_COORD,
        0 <= sh <= MAX_COORD,
        0 <= rem <= MAX_COORD,
    ensures
        r@ == spec_column_rects(
            kids@,
            *this,
            this.position.y as int,
            sleft0 as int,
            sh as int,
            rem as int,
            *screen,
        ),
        r@.len() == kids@.len(),
        forall|j: int| 0 <= j < r@.len() ==> rect_wf(#[trigger] r@[j]),
{
    let ghost full = spec_column_rects(
        kids@,
        *this,
        this.position.y as int,
        sleft0 as int,
        sh as int,
        rem as int,
        *screen,
    );
    let n = kids.len();
    let mut out: Vec<(RealPosition, RealSize)> = Vec::new();
    let mut y: i64 = this.position.y;
    let mut sleft: i64 = sleft0;
    let mut i: usize = 0;
    proof {
        crate::measure::lemma_check_seq_ok(kids@);
        assert(kids@.skip(0) =~= kids@);
    }
    while i < n
        invariant
            n == kids@.len(),
            n == ms@.len(),
            0 <= i <= n,
            kids_measured(kids@, ms@, *screen),
            forall|jj: int|
                0 <= jj < kids@.len() ==> (#[trigger] crate::node::spec_check(kids@[jj])) is Ok,
            screen.wf(),
            this.wf(),
            0 <= sh <= MAX_COORD,
            0 <= rem <= MAX_COORD,
            in_range(y as int),
            0 <= sleft <= sleft0,
            out@.len() == i,
            forall|j: int| 0 <= j < out@.len() ==> rect_wf(#[trigger] out@[j]),
            out@ + spec_column_rects(
                kids@.skip(i as int),
                *this,
                y as int,
                sleft as int,
                sh as int,
                rem as int,
                *screen,
            ) == full,
        decreases n - i,
    {
        proof {
            assert(kids@.skip(i as int)[0] == kids@[i as int]);
            assert(kids@.skip(i as int).drop_first() =~= kids@.skip(i + 1));
        }
        let ghost out_before = out@;
        if kids[i].visible {
            let ch: i64 = if kids[i].stretch {
                if sleft == 1 {
                    add_sat(sh, rem)
                } else {
                    sh
                }
            } else {
                child_h(&kids[i], &ms[i], this, screen)
            };
            let rect = (
                RealPosition { x: this.position.x, y },
                RealSize { width: this.size.width, height: ch },
            );
            out.push(rect);
            y = add_sat(y, ch);
            if kids[i].stretch {
                sleft = if sleft >= 1 {
                    sleft - 1
                } else {
                    0
                };
            }
            proof {
                let rest2 = spec_column_rects(
                    kids@.skip(i + 1),
                    *this,
                    y as int,
                    sleft as int,
                    sh as int,
                    rem as int,
                    *screen,
                );
                assert((out_before + seq![rect]) + rest2 =~= out_before + (seq![rect] + rest2));
            }
        } else {
            let rect = (this.position, RealSize { width: 0, height: 0 });
            out.push(rect);
            proof {
                let rest2 = spec_column_rects(
                    kids@.skip(i + 1),
                    *this,
                    y as int,
                    sleft as int,
                    sh as int,
                    rem as int,
                    *screen,
                );
                assert((out_before + seq![rect]) + rest2 =~= out_before + (seq![rect] + rest2));
            }
        }
        i = i + 1;
    }
    proof {
        assert(kids@.skip(n as int) =~= Seq::<Node>::empty());
        assert(out@ + Seq::<(RealPosition, RealSize)>::empty() =~= out@);
    }
    out
}

/// Grid rectangles: equal cells, wrapping at the grid's width.
fn grid_rects(kids: &Vec<Node>, this: &RealLocation, cell_w: i64, cell_h: i64) -> (r: Vec<
    (RealPosition, RealSize),
>)
    requires
        this.wf(),
        0 <= cell_w <= MAX_COORD,
        0 <= cell_h <= MAX_COORD,
    ensures
        r@ == spec_grid_rects(
            kids@,
            *this,
            cell_w as int,
            cell_h as int,
            0,
            this.position.y as int,
        ),
        r@.len() == kids@.len(),
        forall|j: int| 0 <= j < r@.len() ==> rect_wf(#[trigger] r@[j]),
{
    let ghost full = spec_grid_rects(
        kids@,
        *this,
        cell_w as int,
        cell_h as int,
        0,
        this.position.y as int,
    );
    let n = kids.len();
    let mut out: Vec<(RealPosition, RealSize)> = Vec::new();
    let mut w: i64 = 0;
    let mut y: i64 = this.position.y;
    let mut i: usize = 0;
    proof {
        assert(kids@.skip(0) =~= kids@);
    }
    while i < n
        invariant
            n == kids@.len(),
            0 <= i <= n,
            this.wf(),
            0 <= cell_w <= MAX_COORD,
            0 <= cell_h <= MAX_COORD,
            in_range(w as int),
            in_range(y as int),
            out@.len() == i,
            forall|j: int| 0 <= j < out@.len() ==> rect_wf(#[trigger] out@[j]),
            out@ + spec_grid_rects(
                kids@.skip(i as int),
                *this,
                cell_w as int,
                cell_h as int,
                w as int,
                y as int,
            ) == full,
        decreases n - i,
    {
        proof {
            assert(kids@.skip(i as int)[0] == kids@[i as int]);
            assert(kids@.skip(i as int).drop_first() =~= kids@.skip(i + 1));
        }
        let ghost out_before = out@;
        if kids[i].visible {
            let w1 = add_sat(w, cell_w);
            let wrapped = w1 > cell_w && w1 > this.size.width;
            let w2 = if wrapped {
                cell_w
            } else {
                w1
            };
            let y2 = if wrapped {
                add_sat(y, cell_h)
            } else {
                y
            };
            let x = add_sat(this.position.x, sub_sat(w2, cell_w));
            let rect = (
                RealPosition { x, y: y2 },
                RealSize { width: cell_w, height: cell_h },
            );
            out.push(rect);
            w = w2;
            y = y2;
            proof {
                let rest2 = spec_grid_rects(
                    kids@.skip(i + 1),
                    *this,
                    cell_w as int,
                    cell_h as int,
                    w as int,
                    y as int,
                );
                assert((out_before + seq![rect]) + rest2 =~= out_before + (seq![rect] + rest2));
            }
        } else {
            let rect = (this.position, RealSize { width: 0, height: 0 });
            out.push(rect);
            proof {
                let rest2 = spec_grid_rects(
                    kids@.skip(i + 1),
                    *this,
                    cell_w as int,
                    cell_h as int,
                    w as int,
                    y as int,
                );
                assert((out_before + seq![rect]) + rest2 =~= out_before + (seq![rect] + rest2));
            }
        }
        i = i + 1;
    }
    proof {
        assert(kids@.skip(n as int) =~= Seq::<Node>::empty());
        assert(out@ + Seq::<(RealPosition, RealSize)>::empty() =~= out@);
    }
    out
}

/// Where the wrap row starting at `from` ends.
fn wrap_row_end(
    kids: &Vec<Node>,
    ms: &Vec<Meas>,
    from: usize,
    max_w: i64,
    screen: &ScreenSize,
) -> (end: usize)
    requires
        kids_measured(kids@, ms@, *screen),
        from <= kids@.len(),
        in_range(max_w as int),
    ensures
        end as int == spec_wrap_row_end(kids@, from as int, 0, max_w as int, *screen),
        from <= end <= kids@.len(),
{
    let n = kids.len();
    let mut j: usize = from;
    let mut w: i64 = 0;
    while j < n
        invariant
            n == kids@.len(),
            n == ms@.len(),
            from <= j <= n,
            kids_measured(kids@, ms@, *screen),
            in_range(max_w as int),
            0 <= w <= MAX_COORD,
            spec_wrap_row_end(kids@, from as int, 0, max_w as int, *screen) == spec_wrap_row_end(
                kids@,
                j as int,
                w as int,
                max_w as int,
                *screen,
            ),
        decreases n - j,
    {
        if kids[j].visible {
            let cw = ms[j].size.width;
            let w1 = add_sat(w, cw);
            if w1 > cw && w1 > max_w {
                return j;
            }
            w = w1;
        }
        j = j + 1;
    }
    n
}

/// The tallest visible child in the index range.
fn wrap_row_height(
    kids: &Vec<Node>,
    ms: &Vec<Meas>,
    from: usize,
    end: usize,
    screen: &ScreenSize,
) -> (rh: i64)
    requires
        kids_measured(kids@, ms@, *screen),
        from <= end <= kids@.len(),
    ensures
        rh as int == spec_wrap_row_height(kids@, from as int, end as int, *screen),
        0 <= rh <= MAX_COORD,
{
    proof {
        lemma_wrap_row_height_nonneg(kids@, from as int, end as int, *screen);
    }
    let mut acc: i64 = 0;
    let mut j: usize = from;
    while j < end
        invariant
            end <= kids@.len(),
            kids@.len() == ms@.len(),
            from <= j <= end,
            kids_measured(kids@, ms@, *screen),
            0 <= acc <= MAX_COORD,
            spec_wrap_row_height(kids@, from as int, end as int, *screen) == spec_zmax(
                acc as int,
                spec_wrap_row_height(kids@, j as int, end as int, *screen),
            ),
        decreases end - j,
    {
        if kids[j].visible {
            acc = max_i64(acc, ms[j].size.height);
        }
        j = j + 1;
    }
    acc
}

/// A wrap row's height is never negative.
proof fn lemma_wrap_row_height_nonneg(kids: Seq<Node>, i: int, end: int, screen: ScreenSize)
    ensures
        spec_wrap_row_height(kids, i, end, screen) >= 0,
    decreases end - i,
{
    if i >= 0 && i < end && i < kids.len() {
        lemma_wrap_row_height_nonneg(kids, i + 1, end, screen);
    }
}

/// Wrap rectangles: rows of children, each row as tall as its tallest
/// child, stacked downward.
fn wrap_rects(
    kids: &Vec<Node>,
    ms: &Vec<Meas>,
    this: &RealLocation,
    screen: &ScreenSize,
) -> (r: Vec<(RealPosition, RealSize)>)
    requires
        kids_measured(kids@, ms@, *screen),
        this.wf(),
    ensures
        r@ == spec_wrap_rects_from(kids@, 0, *this, this.position.y as int, *screen),
        r@.len() == kids@.len(),
        forall|j: int| 0 <= j < r@.len() ==> rect_wf(#[trigger] r@[j]),
{
    let ghost full = spec_wrap_rects_from(kids@, 0, *this, this.position.y as int, *screen);
    let n = kids.len();
    let mut out: Vec<(RealPosition, RealSize)> = Vec::new();
    let mut from: usize = 0;
    let mut y: i64 = this.position.y;
    while from < n
        invariant
            n == kids@.len(),
            n == ms@.len(),
            0 <= from <= n,
            kids_measured(kids@, ms@, *screen),
            this.wf(),
            screen.wf() || true,
            in_range(y as int),
            out@.len() == from,
            forall|j: int| 0 <= j < out@.len() ==> rect_wf(#[trigger] out@[j]),
            out@ + spec_wrap_rects_from(kids@, from as int, *this, y as int, *screen) == full,
        decreases n - from,
    {
        let end = wrap_row_end(kids, ms, from, this.size.width, screen);
        let end2 = if end <= from {
            from + 1
        } else {
            end
        };
        let rh = wrap_row_height(kids, ms, from, end2, screen);
        let ghost row_rest = spec_wrap_rects_from(
            kids@,
            end2 as int,
            *this,
            clamped(y as int + rh as int),
            *screen,
        );
        let mut x: i64 = this.position.x;
        let mut j: usize = from;
        while j < end2
            invariant
                n == kids@.len(),
                n == ms@.len(),
                from <= j <= end2,
                end2 <= n,
                kids_measured(kids@, ms@, *screen),
                this.wf(),
                in_range(x as int),
                in_range(y as int),
                0 <= rh <= MAX_COORD,
                out@.len() == j,
                forall|jj: int| 0 <= jj < out@.len() ==> rect_wf(#[trigger] out@[jj]),
                out@ + spec_wrap_row_rects(
                    kids@,
                    j as int,
                    end2 as int,
                    *this,
                    x as int,
                    y as int,
                    rh as int,
                    *screen,
                ) + row_rest == full,
            decreases end2 - j,
        {
            let ghost out_before = out@;
            if kids[j].visible {
                let cw = ms[j].size.width;
                let rect = (
                    RealPosition { x, y },
                    RealSize { width: cw, height: rh },
                );
                out.push(rect);
                x = add_sat(x, cw);
                proof {
                    let rest2 = spec_wrap_row_rects(
                        kids@,
                        j + 1,
                        end2 as int,
                        *this,
                        x as int,
                        y as int,
                        rh as int,
                        *screen,
                    );
                    assert(((out_before + seq![rect]) + rest2) + row_rest =~= ((out_before + (
                    seq![rect] + rest2)) + row_rest));
                }
            } else {
                let rect = (this.position, RealSize { width: 0, height: 0 });
                out.push(rect);
                proof {
                    let rest2 = spec_wrap_row_rects(
                        kids@,
                        j + 1,
                        end2 as int,
                        *this,
                        x as int,
                        y as int,
                        rh as int,
                        *screen,
                    );
                    assert(((out_before + seq![rect]) + rest2) + row_rest =~= ((out_before + (
                    seq![rect] + rest2)) + row_rest));
                }
            }
            j = j + 1;
        }
        proof {
            assert(spec_wrap_row_rects(
                kids@,
                end2 as int,
                end2 as int,
                *this,
                x as int,
                y as int,
                rh as int,
                *screen,
            ) == Seq::<(RealPosition, RealSize)>::empty());
            assert(out@ + Seq::<(RealPosition, RealSize)>::empty() + row_rest =~= out@ + row_rest);
        }
        from = end2;
        y = add_sat(y, rh);
    }
    proof {
        assert(spec_wrap_rects_from(kids@, n as int, *this, y as int, *screen) == Seq::<(
            RealPosition,
            RealSize,
        )>::empty());
        assert(out@ + Seq::<(RealPosition, RealSize)>::empty() =~= out@);
    }
    out
}

/// The nine border rectangles.
fn border_rects(
    bs: &BorderSize,
    this: &RealLocation,
    small: &RealSize,
    screen: &ScreenSize,
) -> (r: Vec<(RealPosition, RealSize)>)
    requires
        bs.wf(),
        this.wf(),
        small.wf(),
        screen.wf(),
    ensures
        r@ == spec_border_rects(*bs, *this, *small, *screen),
        r@.len() == 9,
        forall|j: int| 0 <= j < r@.len() ==> rect_wf(#[trigger] r@[j]),
{
    let pw = this.size.width;
    let ph = this.size.height;
    let sw = small.width;
    let sh = small.height;
    let ext_l = sub_clamp0(resolve(bs.left, Axis::Horizontal, pw, ph, sw, sh, screen), 0);
    let ext_r = sub_clamp0(resolve(bs.right, Axis::Horizontal, pw, ph, sw, sh, screen), 0);
    let ext_u = sub_clamp0(resolve(bs.up, Axis::Vertical, pw, ph, sw, sh, screen), 0);
    let ext_d = sub_clamp0(resolve(bs.down, Axis::Vertical, pw, ph, sw, sh, screen), 0);
    let x_l = this.position.x;
    let x_r = add_sat(x_l, sub_clamp0(pw, ext_r));
    let y_u = this.position.y;
    let y_d = add_sat(y_u, sub_clamp0(ph, ext_d));
    let c_w = sub_clamp0(sub_clamp0(pw, ext_l), ext_r);
    let c_h = sub_clamp0(sub_clamp0(ph, ext_u), ext_d);
    let x_c = add_sat(x_l, ext_l);
    let y_c = add_sat(y_u, ext_u);
    let mut out: Vec<(RealPosition, RealSize)> = Vec::new();
    out.push((RealPosition { x: x_l, y: y_u }, RealSize { width: ext_l, height: ext_u }));
    out.push((RealPosition { x: x_c, y: y_u }, RealSize { width: c_w, height: ext_u }));
    out.push((RealPosition { x: x_r, y: y_u }, RealSize { width: ext_r, height: ext_u }));
    out.push((RealPosition { x: x_l, y: y_c }, RealSize { width: ext_l, height: c_h }));
    out.push((RealPosition { x: x_c, y: y_c }, RealSize { width: c_w, height: c_h }));
    out.push((RealPosition { x: x_r, y: y_c }, RealSize { width: ext_r, height: c_h }));
    out.push((RealPosition { x: x_l, y: y_d }, RealSize { width: ext_l, height: ext_d }));
    out.push((RealPosition { x: x_c, y: y_d }, RealSize { width: c_w, height: ext_d }));
    out.push((RealPosition { x: x_r, y: y_d }, RealSize { width: ext_r, height: ext_d }));
    proof {
        assert(out@ =~= spec_border_rects(*bs, *this, *small, *screen));
    }
    out
}

} // verus!
