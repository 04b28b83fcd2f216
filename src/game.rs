use vstd::prelude::*;
use crate::animations::{AnimationSet, sheet_strip};
use crate::sprite::{Action, Character, Sprite};
use crate::types::{Color, Image, Rect, Vec2i};

verus! {

/// Width of the player's box, in pixels.
pub const PLAYER_WIDTH: i32 = 20;

/// Height of the player's box, in pixels.
pub const PLAYER_HEIGHT: i32 = 32;

/// The state of the demo: one walking character and its animations.
pub struct GameState {
    pub sprite: Sprite,
    pub animation_set: AnimationSet,
    pub speedup_factor: usize,
}

impl GameState {
    /// `character` walking at `(20, 20)`, its animations cut from `image`, each
    /// animation tick lasting five frames.
    pub fn new(character: Character, image: Image) -> (r: Self)
        requires
            sheet_strip(character, Action::Walk) is Some,
        ensures
            r.animation_set.wf(),
            r.animation_set.character == character,
            r.animation_set.image == image,
            r.sprite.character == character,
            r.sprite.action == Action::Walk,
            r.sprite.animation_state.start_time == 0,
            r.sprite.animation_state.now == 0,
            r.sprite.animation_state.action == Action::Walk,
            r.sprite.animation_state.animation == r.animation_set.spec_animation(Action::Walk),
            r.sprite.shape == (Rect {
                pos: Vec2i { x: 20, y: 20 },
                sz: Vec2i { x: PLAYER_WIDTH, y: PLAYER_HEIGHT },
            }),
            r.speedup_factor == 5,
    {
        let animation_set = AnimationSet::new(character, image);
        let sprite = Sprite {
            character: character,
            action: Action::Walk,
            animation_state: animation_set.play_animation(Action::Walk),
            shape: Rect { pos: Vec2i { x: 20, y: 20 }, sz: Vec2i { x: PLAYER_WIDTH, y: PLAYER_HEIGHT } },
        };
        let speedup_factor: usize = 5;
        GameState { sprite: sprite, animation_set: animation_set, speedup_factor: speedup_factor }
    }
}

/// A coloured screen rectangle in unsigned pixel coordinates.
#[derive(Copy, Clone)]
pub struct Rect2 {
    pub x: usize,
    pub y: usize,
    pub width: usize,
    pub height: usize,
    pub color: Color,
}

impl Rect2 {
    pub fn change_color_to(&mut self, new: Color)
        ensures
            *final(self) == (Rect2 { color: new, ..*old(self) }),
    {
        self.color = new;
    }

    pub fn left(self) -> (r: usize)
        ensures
            r == self.x,
    {
        self.x
    }

    pub fn right(self) -> (r: usize)
        requires
            self.x + self.width <= usize::MAX,
        ensures
            r == self.x + self.width,
    {
        self.x + self.width
    }

    pub fn top(self) -> (r: usize)
        ensures
            r == self.y,
    {
        self.y
    }

    pub fn bottom(self) -> (r: usize)
        requires
            self.y + self.height <= usize::MAX,
        ensures
            r == self.y + self.height,
    {
        self.y + self.height
    }
}

} // verus!
