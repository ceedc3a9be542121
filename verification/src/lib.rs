//! A retained-mode scene graph for a 2D sprite renderer: a tree of sprite,
//! text and container nodes, a measure-then-arrange layout engine over a
//! fixed-point length algebra, two-level dirty tracking, and an
//! identity-keyed registry for renderer-owned assets.

pub mod arrange;
pub mod dirty;
pub mod game;
pub mod laws;
pub mod length;
pub mod measure;
pub mod node;
pub mod num;
pub mod registry;
pub mod render;
pub mod scene;
pub mod space;
pub mod sprite;
pub mod text;

pub use num::{MAX_COORD, SCALE};
pub use length::{resolve, Axis, Length, ScreenSize};
pub use space::{
    place, Location, Offset, Origin, Padding, RealLocation, RealPosition, RealSize, Size,
};
pub use node::{
    BorderGrid, BorderSize, Column, Grid, GridSize, Node, NodeKind, Quadrants, Row, SceneError,
    Stack, Wrap,
};
pub use sprite::{
    Repeat, RepeatTile, SheetData, Sprite, Spritesheet, SpritesheetSettings, Texture, Tile,
};
pub use text::{
    BitmapFont, BitmapFontSettings, BitmapFontSupported, BitmapText, CharSize, ColorRgb, FontData,
};
pub use registry::{Handle, Handles};
pub use render::{Instance, RenderEntry};
pub use scene::{FrameOutput, Scene, TextureData, TextureKind, Update};
pub use dirty::DirtyFlags;
pub use measure::{measure, Meas};
pub use game::{
    BorderTiles, BuildingClass, ExplosionAnimation, ExplosionInfo, Nation, SpriteBorder,
    UnitAppearance,
};
