//! The blocks.

use vstd::prelude::*;
use crate::geometry::{Rect, Vec2};
use crate::units::{BLOCK_HEIGHT, BLOCK_LIVES, BLOCK_WIDTH, FIELD_MAX};

verus! {

/// A block: a rectangle of fixed size and the hits it can still take.
#[derive(Clone, Copy, Debug, PartialEq, Eq, Structural)]
pub struct Block {
    pub rect: Rect,
    pub lives: i32,
}

/// The colour in which a block is shown.
#[derive(Clone, Copy, Debug, PartialEq, Eq, Structural)]
pub enum Tint {
    Red,
    Orange,
}

impl Block {
    /// The block has its fixed size, lies in the field and has between
    /// zero and two lives.
    pub open spec fn sound(self) -> bool {
        &&& self.rect.in_field()
        &&& self.rect.w == BLOCK_WIDTH
        &&& self.rect.h == BLOCK_HEIGHT
        &&& 0 <= self.lives <= BLOCK_LIVES
    }

    /// A sound block that is still standing.
    pub open spec fn wf(self) -> bool {
        self.sound() && self.lives > 0
    }

    /// A new block with its corner at `pos`.
    pub open spec fn at(pos: Vec2) -> Block {
        Block { rect: Rect { x: pos.x, y: pos.y, w: BLOCK_WIDTH, h: BLOCK_HEIGHT }, lives: BLOCK_LIVES }
    }

    /// The block after one hit.
    pub open spec fn struck(self) -> Block {
        Block { lives: (self.lives - 1) as i32, ..self }
    }

    /// A new block with its corner at `pos` and two lives.
    pub fn new(pos: Vec2) -> (block: Block)
        requires
            -FIELD_MAX <= pos.x <= FIELD_MAX,
            -FIELD_MAX <= pos.y <= FIELD_MAX,
        ensures
            block == Block::at(pos),
            block.wf(),
    {
        Block { rect: Rect::new(pos.x, pos.y, BLOCK_WIDTH, BLOCK_HEIGHT), lives: BLOCK_LIVES }
    }

    /// Red for a block that has not been hit, orange for any other.
    pub fn tint(&self) -> (tint: Tint)
        ensures
            tint == (if self.lives == BLOCK_LIVES { Tint::Red } else { Tint::Orange }),
    {
        if self.lives == BLOCK_LIVES { Tint::Red } else { Tint::Orange }
    }
}

} // verus!
