//! The scene tree: leaves (sprites, text) and the container kinds, with
//! the configuration check that every traversal relies on.

use vstd::prelude::*;
use crate::length::Length;
use crate::space::Location;
use crate::sprite::Sprite;
use crate::text::BitmapText;

verus! {

/// A fatal configuration or evaluation-order error.  Raised before a
/// frame's traversal starts; the frame is abandoned, never half-drawn.
#[derive(Clone, Copy, PartialEq, Eq, Structural, Debug)]
pub enum SceneError {
    /// A declared fraction lies outside the representable range.
    LengthOutOfRange,
    /// A sprite has no spritesheet.
    MissingSpritesheet,
    /// A text node has no font.
    MissingFont,
    /// A text node has no character size.
    MissingCharSize,
    /// A grid has no cell size.
    MissingGridSize,
    /// A border grid has no quadrants.
    MissingQuadrants,
    /// A border grid has no border size.
    MissingBorderSize,
    /// A border grid's border lengths form an evaluation cycle: the width
    /// extents need the resolved height while the height extents need the
    /// resolved width.
    BorderCycle,
    /// An asset refers to a texture that is not loaded.
    TextureNotLoaded,
    /// An asset's texture has the wrong pixel format.
    WrongTextureFormat,
    /// A font's glyph grid has no columns.
    FontGridEmpty,
    /// A property update names a path that leads nowhere.
    NoSuchNode,
    /// A property update does not fit the node it names.
    WrongNodeKind,
}

/// Size of each cell in a grid.
#[derive(Clone, Copy, PartialEq, Eq, Structural, Debug)]
pub struct GridSize {
    pub width: Length,
    pub height: Length,
}

impl GridSize {
    pub open spec fn wf(&self) -> bool {
        self.width.wf() && self.height.wf()
    }

    pub fn check_wf(&self) -> (r: bool)
        ensures
            r == self.wf(),
    {
        self.width.check_wf() && self.height.check_wf()
    }

    pub fn zero() -> (r: GridSize)
        ensures
            r == (GridSize { width: Length::Zero, height: Length::Zero }),
    {
        GridSize { width: Length::Zero, height: Length::Zero }
    }
}

/// The four border extents of a border grid.
#[derive(Clone, Copy, PartialEq, Eq, Structural, Debug)]
pub struct BorderSize {
    pub up: Length,
    pub down: Length,
    pub left: Length,
    pub right: Length,
}

impl BorderSize {
    /// The same length on every side.
    pub fn all(length: Length) -> (r: BorderSize)
        ensures
            r == (BorderSize { up: length, down: length, left: length, right: length }),
    {
        BorderSize { up: length, down: length, left: length, right: length }
    }

    pub open spec fn wf(&self) -> bool {
        self.up.wf() && self.down.wf() && self.left.wf() && self.right.wf()
    }

    pub fn check_wf(&self) -> (r: bool)
        ensures
            r == self.wf(),
    {
        self.up.check_wf() && self.down.check_wf() && self.left.check_wf() && self.right.check_wf()
    }

    /// Whether the border extents form an evaluation cycle: some
    /// horizontal extent is a fraction of the resolved height while some
    /// vertical extent is a fraction of the resolved width.
    pub open spec fn spec_cycle(&self) -> bool {
        (self.left is SmallestHeight || self.right is SmallestHeight) && (self.up is SmallestWidth
            || self.down is SmallestWidth)
    }

    pub fn has_cycle(&self) -> (r: bool)
        ensures
            r == self.spec_cycle(),
    {
        let w_needs_h = matches!(self.left, Length::SmallestHeight(_)) || matches!(
            self.right,
            Length::SmallestHeight(_),
        );
        let h_needs_w = matches!(self.up, Length::SmallestWidth(_)) || matches!(
            self.down,
            Length::SmallestWidth(_),
        );
        w_needs_h && h_needs_w
    }
}

/// Children drawn on top of each other, all in the container's rectangle.
#[derive(Debug)]
pub struct Stack {
    pub children: Vec<Node>,
}

impl Stack {
    pub fn new() -> (r: Stack)
        ensures
            r.children@ == Seq::<Node>::empty(),
    {
        Stack { children: Vec::new() }
    }
}

/// Children placed left to right.
#[derive(Debug)]
pub struct Row {
    pub children: Vec<Node>,
}

impl Row {
    pub fn new() -> (r: Row)
        ensures
            r.children@ == Seq::<Node>::empty(),
    {
        Row { children: Vec::new() }
    }
}

/// Children placed top to bottom.
#[derive(Debug)]
pub struct Column {
    pub children: Vec<Node>,
}

impl Column {
    pub fn new() -> (r: Column)
        ensures
            r.children@ == Seq::<Node>::empty(),
    {
        Column { children: Vec::new() }
    }
}

/// Children placed left to right, wrapping into a new row when the next
/// child would run past the container's width.
#[derive(Debug)]
pub struct Wrap {
    pub children: Vec<Node>,
}

impl Wrap {
    pub fn new() -> (r: Wrap)
        ensures
            r.children@ == Seq::<Node>::empty(),
    {
        Wrap { children: Vec::new() }
    }
}

/// Children placed in equal-sized cells, wrapping into a new row when the
/// cells would run past the container's width.
#[derive(Debug)]
pub struct Grid {
    pub children: Vec<Node>,
    pub grid_size: Option<GridSize>,
}

impl Grid {
    pub fn new() -> (r: Grid)
        ensures
            r.children@ == Seq::<Node>::empty(),
            r.grid_size.is_none(),
    {
        Grid { children: Vec::new(), grid_size: None }
    }
}

/// The nine children of a border grid: four fixed corners, four edges
/// stretched along one axis, and a center stretched along both.
#[derive(Debug)]
pub struct Quadrants {
    pub up_left: Node,
    pub up: Node,
    pub up_right: Node,
    pub left: Node,
    pub center: Node,
    pub right: Node,
    pub down_left: Node,
    pub down: Node,
    pub down_right: Node,
}

/// A three-by-three arrangement whose center stretches.
#[derive(Debug)]
pub struct BorderGrid {
    pub quadrants: Option<Quadrants>,
    pub border_size: Option<BorderSize>,
}

impl BorderGrid {
    pub fn new() -> (r: BorderGrid)
        ensures
            r.quadrants.is_none(),
            r.border_size.is_none(),
    {
        BorderGrid { quadrants: None, border_size: None }
    }
}

/// What a node is: a leaf that draws, or a container that lays out
/// children.
#[derive(Debug)]
pub enum NodeKind {
    Sprite(Sprite),
    Text(BitmapText),
    Stack(Stack),
    Row(Row),
    Column(Column),
    Wrap(Wrap),
    Grid(Grid),
    Border(Box<BorderGrid>),
}

/// One element of the scene tree.
#[derive(Debug)]
pub struct Node {
    /// An invisible node is treated as if it were not there at all.
    pub visible: bool,
    /// A stretch child of a row or column takes a share of the leftover
    /// space on the container's main axis instead of its own size.
    pub stretch: bool,
    pub location: Location,
    pub kind: NodeKind,
}

impl Node {
    /// A visible, non-stretch node in the parent's full rectangle.
    pub fn new(kind: NodeKind) -> (r: Node)
        ensures
            r == (Node {
                visible: true,
                stretch: false,
                location: Location::spec_base(),
                kind: kind,
            }),
    {
        Node { visible: true, stretch: false, location: Location::base(), kind }
    }

    /// The same node with its visibility set.
    pub fn with_visible(self, visible: bool) -> (r: Node)
        ensures
            r == (Node { visible, ..self }),
    {
        Node { visible, ..self }
    }

    /// The same node with its stretch flag set.
    pub fn with_stretch(self, stretch: bool) -> (r: Node)
        ensures
            r == (Node { stretch, ..self }),
    {
        Node { stretch, ..self }
    }

    /// The same node placed by the given location.
    pub fn with_location(self, location: Location) -> (r: Node)
        ensures
            r == (Node { location, ..self }),
    {
        Node { location, ..self }
    }

    /// A node is valid when its configuration check finds nothing wrong.
    pub open spec fn valid(self) -> bool {
        spec_check(self) is Ok
    }
}

/// The first fault found in a node or below it, walking each node's own
/// declaration first and then its children in drawing order.  `Ok` means
/// the whole subtree can be measured and arranged.
pub open spec fn spec_check(n: Node) -> Result<(), SceneError>
    decreases n,
{
    if !n.location.wf() {
        Err(SceneError::LengthOutOfRange)
    } else {
        match n.kind {
            NodeKind::Sprite(s) => if !s.wf() {
                Err(SceneError::LengthOutOfRange)
            } else if s.spritesheet is None {
                Err(SceneError::MissingSpritesheet)
            } else {
                Ok(())
            },
            NodeKind::Text(t) => if !t.wf() {
                Err(SceneError::LengthOutOfRange)
            } else if t.font is None {
                Err(SceneError::MissingFont)
            } else if t.char_size is None {
                Err(SceneError::MissingCharSize)
            } else {
                Ok(())
            },
            NodeKind::Stack(s) => spec_check_seq(s.children@),
            NodeKind::Row(s) => spec_check_seq(s.children@),
            NodeKind::Column(s) => spec_check_seq(s.children@),
            NodeKind::Wrap(s) => spec_check_seq(s.children@),
            NodeKind::Grid(g) => match g.grid_size {
                None => Err(SceneError::MissingGridSize),
                Some(gs) => if !gs.wf() {
                    Err(SceneError::LengthOutOfRange)
                } else {
                    spec_check_seq(g.children@)
                },
            },
            NodeKind::Border(b) => match b.border_size {
                None => Err(SceneError::MissingBorderSize),
                Some(bs) => if !bs.wf() {
                    Err(SceneError::LengthOutOfRange)
                } else if bs.spec_cycle() {
                    Err(SceneError::BorderCycle)
                } else {
                    match b.quadrants {
                        None => Err(SceneError::MissingQuadrants),
                        Some(q) => spec_check_quadrants(q),
                    }
                },
            },
        }
    }
}

/// The first fault among a sequence of children, left to right.
pub open spec fn spec_check_seq(s: Seq<Node>) -> Result<(), SceneError>
    decreases s,
{
    if s.len() == 0 {
        Ok(())
    } else {
        match spec_check(s[0]) {
            Err(e) => Err(e),
            Ok(u) => spec_check_seq(s.drop_first()),
        }
    }
}

/// The first fault among the nine quadrants, in drawing order.
pub open spec fn spec_check_quadrants(q: Quadrants) -> Result<(), SceneError>
    decreases q,
{
    match spec_check(q.up_left) {
        Err(e) => Err(e),
        Ok(u) => match spec_check(q.up) {
            Err(e) => Err(e),
            Ok(u) => match spec_check(q.up_right) {
                Err(e) => Err(e),
                Ok(u) => match spec_check(q.left) {
                    Err(e) => Err(e),
                    Ok(u) => match spec_check(q.center) {
                        Err(e) => Err(e),
                        Ok(u) => match spec_check(q.right) {
                            Err(e) => Err(e),
                            Ok(u) => match spec_check(q.down_left) {
                                Err(e) => Err(e),
                                Ok(u) => match spec_check(q.down) {
                                    Err(e) => Err(e),
                                    Ok(u) => spec_check(q.down_right),
                                },
                            },
                        },
                    },
                },
            },
        },
    }
}

/// Check a subtree's configuration before a frame uses it.
pub fn check_node(n: &Node) -> (r: Result<(), SceneError>)
    ensures
        r == spec_check(*n),
        r is Ok <==> n.valid(),
    decreases *n,
{
    if !n.location.check_wf() {
        return Err(SceneError::LengthOutOfRange);
    }
    match &n.kind {
        NodeKind::Sprite(s) => {
            if !s.check_wf() {
                Err(SceneError::LengthOutOfRange)
            } else if s.spritesheet.is_none() {
                Err(SceneError::MissingSpritesheet)
            } else {
                Ok(())
            }
        },
        NodeKind::Text(t) => {
            if !t.check_wf() {
                Err(SceneError::LengthOutOfRange)
            } else if t.font.is_none() {
                Err(SceneError::MissingFont)
            } else if t.char_size.is_none() {
                Err(SceneError::MissingCharSize)
            } else {
                Ok(())
            }
        },
        NodeKind::Stack(s) => check_nodes(&s.children),
        NodeKind::Row(s) => check_nodes(&s.children),
        NodeKind::Column(s) => check_nodes(&s.children),
        NodeKind::Wrap(s) => check_nodes(&s.children),
        NodeKind::Grid(g) => {
            match &g.grid_size {
                None => Err(SceneError::MissingGridSize),
                Some(gs) => {
                    if !gs.check_wf() {
                        Err(SceneError::LengthOutOfRange)
                    } else {
                        check_nodes(&g.children)
                    }
                },
            }
        },
        NodeKind::Border(b) => {
            match &b.border_size {
                None => Err(SceneError::MissingBorderSize),
                Some(bs) => {
                    if !bs.check_wf() {
                        Err(SceneError::LengthOutOfRange)
                    } else if bs.has_cycle() {
                        Err(SceneError::BorderCycle)
                    } else {
                        match &b.quadrants {
                            None => Err(SceneError::MissingQuadrants),
                            Some(q) => {
                                let r = check_node(&q.up_left);
                                if r.is_err() {
                                    return r;
                                }
                                let r = check_node(&q.up);
                                if r.is_err() {
                                    return r;
                                }
                                let r = check_node(&q.up_right);
                                if r.is_err() {
                                    return r;
                                }
                                let r = check_node(&q.left);
                                if r.is_err() {
                                    return r;
                                }
                                let r = check_node(&q.center);
                                if r.is_err() {
                                    return r;
                                }
                                let r = check_node(&q.right);
                                if r.is_err() {
                                    return r;
                                }
                                let r = check_node(&q.down_left);
                                if r.is_err() {
                                    return r;
                                }
                                let r = check_node(&q.down);
                                if r.is_err() {
                                    return r;
                                }
                                check_node(&q.down_right)
                            },
                        }
                    }
                },
            }
        },
    }
}

/// Check a list of children, left to right.
fn check_nodes(nodes: &Vec<Node>) -> (r: Result<(), SceneError>)
    ensures
        r == spec_check_seq(nodes@),
    decreases nodes@,
{
    let n = nodes.len();
    let mut i: usize = 0;
    proof {
        assert(nodes@.skip(0) =~= nodes@);
    }
    while i < n
        invariant
            n == nodes@.len(),
            0 <= i <= n,
            spec_check_seq(nodes@) == spec_check_seq(nodes@.skip(i as int)),
        decreases n - i,
    {
        proof {
            assert(nodes@.skip(i as int)[0] == nodes@[i as int]);
            assert(nodes@.skip(i as int).drop_first() =~= nodes@.skip(i + 1));
        }
        let r = check_node(&nodes[i]);
        if r.is_err() {
            return r;
        }
        i = i + 1;
    }
    Ok(())
}

} // verus!
