use vstd::prelude::*;
use crate::sprite::Character;
use crate::types::{Rect, Vec2i};

verus! {

/// Height of the invaders playfield, in pixels.
pub const HEIGHT: i32 = 320;

/// One invader of the formation.
#[derive(PartialEq, Eq, Structural, Clone, Copy, Debug)]
pub struct Enemy {
    pub style: i32,
    pub character: Character,
    pub rect: Rect,
    pub alive: bool,
}

/// `a / b` rounded toward zero, as integer division does on machine integers.
pub open spec fn div_toward_zero(a: int, b: int) -> int {
    if a >= 0 {
        a / b
    } else {
        -((-a) / b)
    }
}

/// The character an invader of `style` is drawn as: style 2 is the second
/// enemy kind, every other style the first.
pub open spec fn enemy_character(style: i32) -> Character {
    if style == 2 {
        Character::SpaceInvaderEnemy2
    } else {
        Character::SpaceInvaderEnemy1
    }
}

impl Enemy {
    /// The live invader of the given style at slot `index` of the formation:
    /// a 16 by 16 box at `(64 + 24 * index.x, 32 + 32 * index.y)`.
    pub fn new(style: i32, index: Vec2i) -> (r: Self)
        requires
            index.x < 8,
            index.y < 2,
            index.x >= -0x100_0000,
            index.y >= -0x100_0000,
        ensures
            r.style == style,
            r.character == enemy_character(style),
            r.alive,
            r.rect == (Rect {
                pos: Vec2i { x: (64 + 24 * index.x) as i32, y: (32 + 32 * index.y) as i32 },
                sz: Vec2i { x: 16, y: 16 },
            }),
    {
        let character = if style == 1 {
            Character::SpaceInvaderEnemy1
        } else if style == 2 {
            Character::SpaceInvaderEnemy2
        } else {
            Character::SpaceInvaderEnemy1
        };
        let x = 64 + 16 * index.x + 8 * index.x;
        let y = 32 + 32 * index.y;
        Self { style, character, rect: Rect { pos: Vec2i { x, y }, sz: Vec2i { x: 16, y: 16 } }, alive: true }
    }

    /// The bullet this invader fires: 2 by 8, centred under its box.
    pub fn shoot(&self) -> (r: Rect)
        requires
            self.rect.wf(),
            i32::MIN <= self.rect.pos.x + self.rect.sz.x / 2 - 1,
            self.rect.pos.x + self.rect.sz.x / 2 <= i32::MAX,
            self.rect.pos.y + self.rect.sz.y <= i32::MAX,
        ensures
            r == (Rect {
                pos: Vec2i {
                    x: (self.rect.pos.x + self.rect.sz.x / 2 - 1) as i32,
                    y: (self.rect.pos.y + self.rect.sz.y) as i32,
                },
                sz: Vec2i { x: 2, y: 8 },
            }),
    {
        Rect {
            pos: Vec2i {
                x: self.rect.pos.x + self.rect.sz.x / 2 - 1,
                y: self.rect.pos.y + self.rect.sz.y,
            },
            sz: Vec2i { x: 2, y: 8 },
        }
    }
}

/// One block of the shields in front of the player.
#[derive(PartialEq, Eq, Structural, Clone, Copy, Debug)]
pub struct Blocker {
    pub rect: Rect,
    pub alive: bool,
}

impl Blocker {
    /// The intact block at slot `index`: a 16 by 16 box, the slots in groups
    /// of four with a 32-pixel gap between groups, two rows above the bottom.
    pub fn new(index: Vec2i) -> (r: Self)
        requires
            index.x < 12,
            index.y < 2,
            index.x >= -0x100_0000,
            index.y >= -0x100_0000,
        ensures
            r.alive,
            r.rect == (Rect {
                pos: Vec2i {
                    x: (32 + 16 * index.x + 32 * div_toward_zero(index.x as int, 4)) as i32,
                    y: (HEIGHT - 96 + 16 * index.y) as i32,
                },
                sz: Vec2i { x: 16, y: 16 },
            }),
    {
        let group: i32 = if index.x >= 0 {
            index.x / 4
        } else {
            -((-index.x) / 4)
        };
        Self {
            rect: Rect {
                pos: Vec2i { x: 32 + 16 * index.x + 32 * group, y: HEIGHT - 96 + 16 * index.y },
                sz: Vec2i { x: 16, y: 16 },
            },
            alive: true,
        }
    }
}

} // verus!
