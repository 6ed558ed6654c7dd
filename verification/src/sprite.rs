use vstd::prelude::*;

verus! {

/// A cell of the sprite sheet, by column and row.
#[derive(Debug, Clone, Copy, PartialEq, Eq, Structural)]
pub struct GridPos {
    pub gx: u8,
    pub gy: u8,
}

impl Default for GridPos {
    fn default() -> (res: Self)
        ensures
            res == (GridPos { gx: 0, gy: 0 }),
    {
        GridPos { gx: 0, gy: 0 }
    }
}

/// The two flower sprites of the clickable grid.
#[derive(Debug, Clone, Copy, PartialEq, Eq, Structural)]
pub enum Sprite {
    RedFlower,
    YellowFlower,
}

impl Default for Sprite {
    fn default() -> (res: Self)
        ensures
            res == Sprite::RedFlower,
    {
        Sprite::RedFlower
    }
}

impl Sprite {
    /// The other flower.
    pub open spec fn other(self) -> Sprite {
        match self {
            Sprite::RedFlower => Sprite::YellowFlower,
            Sprite::YellowFlower => Sprite::RedFlower,
        }
    }

    /// The other flower: red becomes yellow and yellow becomes red.
    pub fn toggled(self) -> (res: Sprite)
        ensures
            res == self.other(),
    {
        match self {
            Sprite::RedFlower => Sprite::YellowFlower,
            Sprite::YellowFlower => Sprite::RedFlower,
        }
    }

    /// The sprite-sheet cell drawn for this sprite.
    pub fn grid_pos(self) -> (res: GridPos)
        ensures
            self == Sprite::RedFlower ==> res == (GridPos { gx: 0, gy: 0 }),
            self == Sprite::YellowFlower ==> res == (GridPos { gx: 1, gy: 0 }),
    {
        match self {
            Sprite::RedFlower => GridPos { gx: 0, gy: 0 },
            Sprite::YellowFlower => GridPos { gx: 1, gy: 0 },
        }
    }
}

} // verus!
