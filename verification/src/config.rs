use vstd::prelude::*;

verus! {

/// Logical width of the pixel-art world.
pub const LOGIC_WIDTH: u8 = 128;

/// Logical height of the pixel-art world.
pub const LOGIC_HEIGHT: u8 = 128;

/// Number of grid columns.
pub const MAX_COL: u8 = 4;

/// Number of grid rows.
pub const MAX_ROW: u8 = 4;

/// Width of one grid cell (`LOGIC_WIDTH / MAX_COL`).
pub const RECT_WIDTH: u8 = 32;

/// Height of one grid cell (`LOGIC_HEIGHT / MAX_ROW`).
pub const RECT_HEIGHT: u8 = 32;

/// Number of entity slots (`MAX_COL * MAX_ROW`).
pub const MAX_ENTITIES: usize = 16;

/// Side length of the sprite sheet in pixels.
pub const SPRITE_SHEET_SIZE: u16 = 256;

/// Number of sprite cells along one side of the sprite sheet.
pub const SPRITE_GRID_SIZE: u8 = 16;

/// Capacity of the flat frame storage of the animation registry.
pub const MAX_TOTAL_FRAMES: usize = 256;

/// Capacity of the animation registry.
pub const MAX_ANIMATIONS: usize = 32;

/// Number of key slots tracked by the input handler.
pub const KEY_COUNT: usize = 255;

/// Number of mouse button slots tracked by the input handler.
pub const MOUSE_BUTTONS: usize = 3;

} // verus!
