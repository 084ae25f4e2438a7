use vstd::prelude::*;

verus! {

/// The sprites of the sprite sheet, a grid of 10 by 10 sprites of 32 pixels.
#[derive(PartialEq, Eq, Structural, Clone, Copy, Debug)]
pub enum GameSprite {
    _JankyPlayer,
    _JankyPlayerThrust,
    Player,
    PlayerThrust0,
    PlayerThrust1,
    _Laser,
    Enemy,
    ConveyorInWOutE,
    ConveyorInSWOutE,
    ConveyorInSOutE,
    ConveyorInNSOutE,
    ConveyorInNSWOutE,
    BlankSquare,
    Delete,
    Arrow,
    Generator,
    Sink,
    Distributor,
    Bridge,
    OperatorPlus,
    OperatorMultiply,
}

/// The position of a sprite on the sheet, counted row by row.
pub open spec fn sprite_index(s: GameSprite) -> int {
    match s {
        GameSprite::_JankyPlayer => 0,
        GameSprite::_JankyPlayerThrust => 1,
        GameSprite::Player => 2,
        GameSprite::PlayerThrust0 => 3,
        GameSprite::PlayerThrust1 => 4,
        GameSprite::_Laser => 5,
        GameSprite::Enemy => 6,
        GameSprite::ConveyorInWOutE => 11,
        GameSprite::ConveyorInSWOutE => 12,
        GameSprite::ConveyorInSOutE => 13,
        GameSprite::ConveyorInNSOutE => 14,
        GameSprite::ConveyorInNSWOutE => 15,
        GameSprite::BlankSquare => 20,
        GameSprite::Delete => 21,
        GameSprite::Arrow => 22,
        GameSprite::Generator => 30,
        GameSprite::Sink => 31,
        GameSprite::Distributor => 32,
        GameSprite::Bridge => 33,
        GameSprite::OperatorPlus => 34,
        GameSprite::OperatorMultiply => 35,
    }
}

impl GameSprite {
    /// The position of the sprite on the sheet.
    pub fn index(&self) -> (r: usize)
        ensures
            r == sprite_index(*self),
    {
        match self {
            GameSprite::_JankyPlayer => 0,
            GameSprite::_JankyPlayerThrust => 1,
            GameSprite::Player => 2,
            GameSprite::PlayerThrust0 => 3,
            GameSprite::PlayerThrust1 => 4,
            GameSprite::_Laser => 5,
            GameSprite::Enemy => 6,
            GameSprite::ConveyorInWOutE => 11,
            GameSprite::ConveyorInSWOutE => 12,
            GameSprite::ConveyorInSOutE => 13,
            GameSprite::ConveyorInNSOutE => 14,
            GameSprite::ConveyorInNSWOutE => 15,
            GameSprite::BlankSquare => 20,
            GameSprite::Delete => 21,
            GameSprite::Arrow => 22,
            GameSprite::Generator => 30,
            GameSprite::Sink => 31,
            GameSprite::Distributor => 32,
            GameSprite::Bridge => 33,
            GameSprite::OperatorPlus => 34,
            GameSprite::OperatorMultiply => 35,
        }
    }

    /// The texture index of the sprite in a tile map that uses the sheet.
    pub fn tile_texture_index(&self) -> (r: u32)
        ensures
            r == sprite_index(*self),
    {
        self.index() as u32
    }

    /// One of the two thrust animation frames, picked by the parity of `n`.
    pub fn player_thrust(n: u32) -> (r: GameSprite)
        ensures
            r == if n % 2 == 0 {
                GameSprite::PlayerThrust0
            } else {
                GameSprite::PlayerThrust1
            },
    {
        if n % 2 == 0 {
            GameSprite::PlayerThrust0
        } else {
            GameSprite::PlayerThrust1
        }
    }
}

} // verus!
