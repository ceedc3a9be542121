//! Pure game-side rules built on the scene graph: building and unit
//! tile tables, explosion animations, and a nine-tile sprite border.

use vstd::prelude::*;
use crate::num::SCALE;
use crate::node::{BorderGrid, BorderSize, Node, NodeKind, Quadrants, Stack};
use crate::sprite::{Sprite, Spritesheet, Tile, RepeatTile, Repeat};

verus! {

/// The five playable nations.
#[derive(Clone, Copy, PartialEq, Eq, Structural, Debug)]
pub enum Nation {
    OrangeStar,
    BlueMoon,
    GreenEarth,
    YellowComet,
    BlackHole,
}

impl Nation {
    /// The palette row that recolors sprites for this nation.
    pub fn palette_index(&self) -> (r: u32)
        ensures
            r == match *self {
                Nation::OrangeStar => 0u32,
                Nation::BlueMoon => 1u32,
                Nation::GreenEarth => 2u32,
                Nation::YellowComet => 3u32,
                Nation::BlackHole => 4u32,
            },
    {
        match *self {
            Nation::OrangeStar => 0,
            Nation::BlueMoon => 1,
            Nation::GreenEarth => 2,
            Nation::YellowComet => 3,
            Nation::BlackHole => 4,
        }
    }
}

/// The building kinds the map can hold.
#[derive(Clone, Copy, PartialEq, Eq, Structural, Debug)]
pub enum BuildingClass {
    HQ1,
    HQ2,
    HQ3,
    HQ4,
    HQ5,
    City,
    Base,
    Airport,
    Port,
    ComTower,
    Lab,
    MissileSilo,
    MissileSiloEmpty,
}

impl BuildingClass {
    /// Which row of the building sheet this kind draws from.
    pub open spec fn spec_row(&self) -> u32 {
        match *self {
            BuildingClass::HQ1 => 0u32,
            BuildingClass::HQ2 => 1u32,
            BuildingClass::HQ3 => 2u32,
            BuildingClass::HQ4 => 3u32,
            BuildingClass::HQ5 => 4u32,
            BuildingClass::City => 5u32,
            BuildingClass::Base => 6u32,
            BuildingClass::Airport => 7u32,
            BuildingClass::Port => 8u32,
            BuildingClass::ComTower => 9u32,
            BuildingClass::Lab => 10u32,
            BuildingClass::MissileSilo => 11u32,
            BuildingClass::MissileSiloEmpty => 12u32,
        }
    }

    /// Whether a nation can own this building; missile silos are
    /// neutral ground.
    pub fn can_have_nation(&self) -> (r: bool)
        ensures
            r == !(*self == BuildingClass::MissileSilo || *self
                == BuildingClass::MissileSiloEmpty),
    {
        match self {
            BuildingClass::MissileSilo => false,
            BuildingClass::MissileSiloEmpty => false,
            _ => true,
        }
    }

    /// The vertical pixel start of this kind's tiles, for tiles
    /// `tile_height` pixels tall.
    pub fn tile_y(&self, tile_height: u32) -> (r: u32)
        requires
            self.spec_row() * tile_height <= u32::MAX,
        ensures
            r == self.spec_row() * tile_height,
    {
        let row: u32 = match *self {
            BuildingClass::HQ1 => 0,
            BuildingClass::HQ2 => 1,
            BuildingClass::HQ3 => 2,
            BuildingClass::HQ4 => 3,
            BuildingClass::HQ5 => 4,
            BuildingClass::City => 5,
            BuildingClass::Base => 6,
            BuildingClass::Airport => 7,
            BuildingClass::Port => 8,
            BuildingClass::ComTower => 9,
            BuildingClass::Lab => 10,
            BuildingClass::MissileSilo => 11,
            BuildingClass::MissileSiloEmpty => 12,
        };
        row * tile_height
    }
}

/// The horizontal pixel start of a building's tile: fogged buildings
/// show the fog column, owned buildings animate, neutral ones stand
/// still.
pub fn building_tile_x(fog: bool, owned: bool, can_own: bool, frame: u32, tile_width: u32) -> (r:
    u32)
    requires
        frame < 4,
        6 * tile_width <= u32::MAX,
    ensures
        fog ==> r == tile_width,
        !fog && can_own && owned ==> r == (2 + frame) * tile_width,
        !fog && !(can_own && owned) ==> r == 0,
{
    if fog {
        tile_width
    } else if can_own && owned {
        proof {
            assert((2 + frame) * tile_width <= 6 * tile_width) by (nonlinear_arith)
                requires
                    frame < 4,
            ;
        }
        (2 + frame) * tile_width
    } else {
        0
    }
}

/// How units are drawn.
#[derive(Clone, Copy, PartialEq, Eq, Structural, Debug)]
pub enum UnitAppearance {
    DualStrikeSmall,
    DualStrikeBig,
}

impl UnitAppearance {
    /// The unit tile edge in pixels for this appearance.
    pub fn unit_tile_size(&self) -> (r: u32)
        ensures
            r == match *self {
                UnitAppearance::DualStrikeSmall => 32u32,
                UnitAppearance::DualStrikeBig => 64u32,
            },
    {
        match *self {
            UnitAppearance::DualStrikeSmall => 32,
            UnitAppearance::DualStrikeBig => 64,
        }
    }
}

impl Default for UnitAppearance {
    /// Units draw big by default.
    fn default() -> (r: UnitAppearance)
        ensures
            r == UnitAppearance::DualStrikeBig,
    {
        UnitAppearance::DualStrikeBig
    }
}

/// One explosion animation's sheet geometry: its footprint in grid
/// cells (fixed-point), its strip on the effect sheet, and how many
/// frames it runs.
#[derive(Clone, Copy, PartialEq, Eq, Structural, Debug)]
pub struct ExplosionInfo {
    pub width: i64,
    pub height: i64,
    pub tile_x: u32,
    pub tile_y: u32,
    pub tile_width: u32,
    pub tile_height: u32,
    pub frames: u32,
}

/// The explosion animations.
#[derive(Clone, Copy, PartialEq, Eq, Structural, Debug)]
pub enum ExplosionAnimation {
    Land,
    Air,
    Sea,
    Mega,
}

impl ExplosionAnimation {
    /// Each animation's sheet geometry.
    pub fn info(&self) -> (r: ExplosionInfo)
        ensures
            r == self.spec_info(),
    {
        match *self {
            ExplosionAnimation::Land => ExplosionInfo {
                width: 2 * SCALE,
                height: 2 * SCALE,
                tile_x: 0,
                tile_y: 0,
                tile_width: 32,
                tile_height: 32,
                frames: 9,
            },
            ExplosionAnimation::Air => ExplosionInfo {
                width: 2 * SCALE,
                height: 2 * SCALE,
                tile_x: 0,
                tile_y: 32,
                tile_width: 32,
                tile_height: 32,
                frames: 9,
            },
            ExplosionAnimation::Sea => ExplosionInfo {
                width: 2 * SCALE,
                height: 2 * SCALE,
                tile_x: 0,
                tile_y: 64,
                tile_width: 32,
                tile_height: 32,
                frames: 7,
            },
            ExplosionAnimation::Mega => ExplosionInfo {
                width: 7 * SCALE,
                height: 3 * SCALE,
                tile_x: 0,
                tile_y: 96,
                tile_width: 112,
                tile_height: 48,
                frames: 12,
            },
        }
    }

    pub open spec fn spec_info(&self) -> ExplosionInfo {
        match *self {
            ExplosionAnimation::Land => ExplosionInfo {
                width: (2 * SCALE) as i64,
                height: (2 * SCALE) as i64,
                tile_x: 0,
                tile_y: 0,
                tile_width: 32,
                tile_height: 32,
                frames: 9,
            },
            ExplosionAnimation::Air => ExplosionInfo {
                width: (2 * SCALE) as i64,
                height: (2 * SCALE) as i64,
                tile_x: 0,
                tile_y: 32,
                tile_width: 32,
                tile_height: 32,
                frames: 9,
            },
            ExplosionAnimation::Sea => ExplosionInfo {
                width: (2 * SCALE) as i64,
                height: (2 * SCALE) as i64,
                tile_x: 0,
                tile_y: 64,
                tile_width: 32,
                tile_height: 32,
                frames: 7,
            },
            ExplosionAnimation::Mega => ExplosionInfo {
                width: (7 * SCALE) as i64,
                height: (3 * SCALE) as i64,
                tile_x: 0,
                tile_y: 96,
                tile_width: 112,
                tile_height: 48,
                frames: 12,
            },
        }
    }
}

/// The frame an explosion shows at a point of its run.
pub open spec fn spec_explosion_frame(frames: int, percent: int) -> int {
    let f = (percent * frames) / (SCALE as int);
    if f >= frames - 1 {
        frames - 1
    } else {
        f
    }
}

/// The tile an explosion shows when it is `percent` of the way through
/// its run (fixed-point, `SCALE` meaning done).
pub fn explosion_tile(info: &ExplosionInfo, percent: i64) -> (r: Tile)
    requires
        1 <= info.frames <= 0xFFFF,
        0 <= percent <= SCALE,
        info.tile_x <= 0xFFFF,
        info.tile_y <= 0xFFFF,
        info.tile_width <= 0xFFFF,
        info.tile_height <= 0xFFFF,
    ensures
        ({
            let frame = spec_explosion_frame(info.frames as int, percent as int);
            &&& r.start_x == info.tile_x + info.tile_width * frame
            &&& r.start_y == info.tile_y
            &&& r.end_x == r.start_x + info.tile_width
            &&& r.end_y == info.tile_y + info.tile_height
        }),
{
    proof {
        assert(0 <= percent as int * info.frames as int <= SCALE as int * 0xFFFF)
            by (nonlinear_arith)
            requires
                0 <= percent <= SCALE,
                1 <= info.frames <= 0xFFFF,
        ;
    }
    let raw: u64 = (percent as u64) * (info.frames as u64) / (SCALE as u64);
    let frame: u64 = if raw >= (info.frames - 1) as u64 {
        (info.frames - 1) as u64
    } else {
        raw
    };
    proof {
        assert(frame as int <= 0xFFFE);
        assert(info.tile_width as int * frame as int <= 0xFFFF * 0xFFFE) by (nonlinear_arith)
            requires
                0 <= info.tile_width <= 0xFFFF,
                0 <= frame <= 0xFFFE,
        ;
    }
    let start_x: u32 = info.tile_x + info.tile_width * (frame as u32);
    Tile {
        start_x,
        start_y: info.tile_y,
        end_x: start_x + info.tile_width,
        end_y: info.tile_y + info.tile_height,
    }
}

/// The nine tiles of a sprite border, cut from a three-by-three block
/// of the sheet.
#[derive(Clone, Copy, PartialEq, Eq, Structural, Debug)]
pub struct BorderTiles {
    pub up_left: Tile,
    pub up: Tile,
    pub up_right: Tile,
    pub left: Tile,
    pub center: Tile,
    pub right: Tile,
    pub down_left: Tile,
    pub down: Tile,
    pub down_right: Tile,
}

impl BorderTiles {
    /// Cut the nine tiles out of a grid of equal cells starting at the
    /// given pixel corner.
    pub fn from_grid(start_x: u32, start_y: u32, tile_width: u32, tile_height: u32) -> (r:
        BorderTiles)
        requires
            start_x + 3 * tile_width <= u32::MAX,
            start_y + 3 * tile_height <= u32::MAX,
        ensures
            r.up_left == (Tile {
                start_x: start_x,
                start_y: start_y,
                end_x: (start_x + tile_width) as u32,
                end_y: (start_y + tile_height) as u32,
            }),
            r.center == (Tile {
                start_x: (start_x + tile_width) as u32,
                start_y: (start_y + tile_height) as u32,
                end_x: (start_x + 2 * tile_width) as u32,
                end_y: (start_y + 2 * tile_height) as u32,
            }),
            r.down_right == (Tile {
                start_x: (start_x + 2 * tile_width) as u32,
                start_y: (start_y + 2 * tile_height) as u32,
                end_x: (start_x + 3 * tile_width) as u32,
                end_y: (start_y + 3 * tile_height) as u32,
            }),
            r.up.start_x == start_x + tile_width && r.up.start_y == start_y,
            r.up_right.start_x == start_x + 2 * tile_width && r.up_right.start_y == start_y,
            r.left.start_x == start_x && r.left.start_y == start_y + tile_height,
            r.right.start_x == start_x + 2 * tile_width && r.right.start_y == start_y
                + tile_height,
            r.down_left.start_x == start_x && r.down_left.start_y == start_y + 2 * tile_height,
            r.down.start_x == start_x + tile_width && r.down.start_y == start_y + 2 * tile_height,
    {
        let x1 = start_x;
        let x2 = start_x + tile_width;
        let x3 = start_x + 2 * tile_width;
        let x4 = start_x + 3 * tile_width;
        let y1 = start_y;
        let y2 = start_y + tile_height;
        let y3 = start_y + 2 * tile_height;
        let y4 = start_y + 3 * tile_height;
        BorderTiles {
            up_left: Tile { start_x: x1, start_y: y1, end_x: x2, end_y: y2 },
            up: Tile { start_x: x2, start_y: y1, end_x: x3, end_y: y2 },
            up_right: Tile { start_x: x3, start_y: y1, end_x: x4, end_y: y2 },
            left: Tile { start_x: x1, start_y: y2, end_x: x2, end_y: y3 },
            center: Tile { start_x: x2, start_y: y2, end_x: x3, end_y: y3 },
            right: Tile { start_x: x3, start_y: y2, end_x: x4, end_y: y3 },
            down_left: Tile { start_x: x1, start_y: y3, end_x: x2, end_y: y4 },
            down: Tile { start_x: x2, start_y: y3, end_x: x3, end_y: y4 },
            down_right: Tile { start_x: x3, start_y: y3, end_x: x4, end_y: y4 },
        }
    }
}

/// A border grid drawn from nine tiles of one spritesheet, with an
/// arbitrary node stacked over the center tile.
pub struct SpriteBorder;

impl SpriteBorder {
    /// Assemble the border-grid node: each quadrant a sprite showing
    /// its tile, the center a stack of the center sprite and the given
    /// center node.
    pub fn build(
        sheet: Spritesheet,
        border_size: BorderSize,
        tiles: &BorderTiles,
        center: Node,
    ) -> (r: Node)
        ensures
            r.visible,
            !r.stretch,
            r.kind is Border,
            r.kind matches NodeKind::Border(b) ==> b.border_size == Some(border_size)
                && b.quadrants is Some,
    {
        let corner = |tile: Tile| -> (n: Node)
            ensures
                n.visible && n.kind is Sprite,
            {
                Node::new(
                    NodeKind::Sprite(
                        Sprite {
                            spritesheet: Some(sheet),
                            tile,
                            repeat_tile: RepeatTile {
                                width: Repeat::Stretch,
                                height: Repeat::Stretch,
                            },
                            palette: 0,
                        },
                    ),
                )
            };
        let center_sprite = Node::new(
            NodeKind::Sprite(
                Sprite {
                    spritesheet: Some(sheet),
                    tile: tiles.center,
                    repeat_tile: RepeatTile { width: Repeat::Stretch, height: Repeat::Stretch },
                    palette: 0,
                },
            ),
        );
        let mut stack_children: Vec<Node> = Vec::new();
        stack_children.push(center_sprite);
        stack_children.push(center);
        let center_stack = Node::new(NodeKind::Stack(Stack { children: stack_children }));
        let quadrants = Quadrants {
            up_left: corner(tiles.up_left),
            up: corner(tiles.up),
            up_right: corner(tiles.up_right),
            left: corner(tiles.left),
            center: center_stack,
            right: corner(tiles.right),
            down_left: corner(tiles.down_left),
            down: corner(tiles.down),
            down_right: corner(tiles.down_right),
        };
        Node::new(
            NodeKind::Border(
                Box::new(
                    BorderGrid { quadrants: Some(quadrants), border_size: Some(border_size) },
                ),
            ),
        )
    }
}

} // verus!
