//! Destructible blocks: a fixed-size rectangle and a hit counter.

use vstd::prelude::*;
use crate::geom::POS_LIMIT;
use crate::geom::Rect;

verus! {

/// Width of a block.
pub const BLOCK_WIDTH: i64 = 120;

/// Height of a block.
pub const BLOCK_HEIGHT: i64 = 40;

/// Hits a fresh block can take before it is destroyed.
pub const BLOCK_START_LIVES: i64 = 2;

/// A block: fixed bounds, and the hits it can still take. It is
/// removed from the active set once `lives` reaches zero or below.
#[derive(Clone, Copy, PartialEq, Eq, Structural, Debug)]
pub struct Block {
    pub rect: Rect,
    pub lives: i64,
}

/// The color a block is drawn in, decided by its remaining lives.
#[derive(Clone, Copy, PartialEq, Eq, Structural, Debug)]
pub enum BlockColor {
    Red,
    Orange,
}

impl Block {
    /// A fresh block with its top-left corner at the given position.
    pub fn new(x: i64, y: i64) -> (b: Block)
        requires
            -POS_LIMIT <= x <= POS_LIMIT,
            -POS_LIMIT <= y <= POS_LIMIT,
        ensures
            b.rect == (Rect { x, y, w: BLOCK_WIDTH, h: BLOCK_HEIGHT }),
            b.lives == BLOCK_START_LIVES,
    {
        Block {
            rect: Rect { x, y, w: BLOCK_WIDTH, h: BLOCK_HEIGHT },
            lives: BLOCK_START_LIVES,
        }
    }

    /// The color to draw this block in: red while untouched, orange
    /// once it has been hit.
    pub fn color(&self) -> (c: BlockColor)
        ensures
            c == if self.lives == BLOCK_START_LIVES {
                BlockColor::Red
            } else {
                BlockColor::Orange
            },
    {
        match self.lives {
            2 => BlockColor::Red,
            _ => BlockColor::Orange,
        }
    }
}

} // verus!
