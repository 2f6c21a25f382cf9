//! Units of measure and the fixed dimensions of the game.
//!
//! One world unit is the distance that a body with a velocity component of
//! one thousandth covers in one microsecond at a speed of one pixel per
//! second: a billionth of a pixel. With these units
//! `displacement = velocity * microseconds * speed` holds without rounding.

use vstd::prelude::*;

verus! {

/// World units in one pixel.
pub const UNITS_PER_PIXEL: i64 = 1_000_000_000;

/// The velocity component of magnitude one.
pub const ONE: i64 = 1_000;

/// The tilt of magnitude one: a new ball with this tilt leaves at 45
/// degrees. Tilts are counted in millionths.
pub const TILT_ONE: i64 = 1_000_000;

/// Paddle speed in pixels per second.
pub const PLAYER_SPEED: i64 = 700;

/// Ball speed in pixels per second.
pub const BALL_SPEED: i64 = 400;

/// Width of the paddle: 150 pixels.
pub const PLAYER_WIDTH: i64 = 150 * UNITS_PER_PIXEL;

/// Height of the paddle: 40 pixels.
pub const PLAYER_HEIGHT: i64 = 40 * UNITS_PER_PIXEL;

/// Distance of the paddle's top edge from the bottom of the screen: 100 pixels.
pub const PLAYER_RISE: i64 = 100 * UNITS_PER_PIXEL;

/// Width of a block: 100 pixels.
pub const BLOCK_WIDTH: i64 = 100 * UNITS_PER_PIXEL;

/// Height of a block: 40 pixels.
pub const BLOCK_HEIGHT: i64 = 40 * UNITS_PER_PIXEL;

/// Side of the square ball: 50 pixels.
pub const BALL_SIZE: i64 = 50 * UNITS_PER_PIXEL;

/// Gap between neighbouring blocks: 5 pixels.
pub const BLOCK_PADDING: i64 = 5 * UNITS_PER_PIXEL;

/// Distance of the block grid from the top of the screen: 50 pixels.
pub const GRID_TOP: i64 = 50 * UNITS_PER_PIXEL;

/// Blocks in one row of the grid.
pub const GRID_COLUMNS: usize = 6;

/// Rows of the grid.
pub const GRID_ROWS: usize = 6;

/// Blocks in the grid.
pub const GRID_BLOCKS: usize = GRID_COLUMNS * GRID_ROWS;

/// Distance between the left edges of neighbouring blocks: the width of a
/// block and the gap.
pub const GRID_PITCH_X: i64 = BLOCK_WIDTH + BLOCK_PADDING;

/// Distance between the top edges of neighbouring rows: the height of a
/// block and the gap.
pub const GRID_PITCH_Y: i64 = BLOCK_HEIGHT + BLOCK_PADDING;

/// Width of the whole grid: six blocks, each with its gap.
pub const GRID_WIDTH: i64 = 6 * GRID_PITCH_X;

/// Lives of a new paddle.
pub const PLAYER_LIVES: i32 = 3;

/// Lives of a new block.
pub const BLOCK_LIVES: i32 = 2;

/// Points for a destroyed block.
pub const BLOCK_SCORE: i32 = 10;

/// Largest screen width and height: a million pixels.
pub const SCREEN_MAX: i64 = 1_000_000 * UNITS_PER_PIXEL;

/// Largest width and height of a rectangle.
pub const SIZE_MAX: i64 = SCREEN_MAX;

/// Static rectangles (the paddle, the blocks) keep their corner within this
/// distance of the origin on both axes.
pub const FIELD_MAX: i64 = 2 * SCREEN_MAX;

/// Moving rectangles keep their corner within this distance of the origin
/// on both axes: a billion pixels. A ball that would fly further stops at
/// this edge.
pub const WORLD_MAX: i64 = 1_000_000_000 * UNITS_PER_PIXEL;

/// The size of the drawing surface in world units.
#[derive(Clone, Copy, Debug, PartialEq, Eq, Structural)]
pub struct Screen {
    pub width: i64,
    pub height: i64,
}

impl Screen {
    /// A screen has a non-negative extent of at most `SCREEN_MAX` on both axes.
    pub open spec fn wf(self) -> bool {
        &&& 0 <= self.width <= SCREEN_MAX
        &&& 0 <= self.height <= SCREEN_MAX
    }

    /// A screen of the given extent, if it is one.
    pub fn new(width: i64, height: i64) -> (screen: Option<Screen>)
        ensures
            screen == (if 0 <= width <= SCREEN_MAX && 0 <= height <= SCREEN_MAX {
                Some(Screen { width, height })
            } else {
                None
            }),
            screen is Some ==> screen->0.wf(),
    {
        if 0 <= width && width <= SCREEN_MAX && 0 <= height && height <= SCREEN_MAX {
            Some(Screen { width, height })
        } else {
            None
        }
    }
}

} // verus!
