use vstd::prelude::*;
use crate::animations::AnimationState;
use crate::types::Rect;

verus! {

/// What a character is doing; each action has its own animation.
#[derive(PartialEq, Eq, Structural, Clone, Copy, Hash, Debug)]
pub enum Action {
    Walk,
    Jump,
    Die,
    Stand,
    Glide,
}

/// Number of actions, the length of an action table.
pub const NUM_ACTIONS: usize = 5;

impl Action {
    pub open spec fn spec_index(self) -> int {
        match self {
            Action::Walk => 0,
            Action::Jump => 1,
            Action::Die => 2,
            Action::Stand => 3,
            Action::Glide => 4,
        }
    }

    /// The slot of this action in an action table.
    pub fn index(self) -> (r: usize)
        ensures
            r == self.spec_index(),
            r < NUM_ACTIONS,
    {
        match self {
            Action::Walk => 0,
            Action::Jump => 1,
            Action::Die => 2,
            Action::Stand => 3,
            Action::Glide => 4,
        }
    }
}

/// A character archetype, with its own sprite sheet and animations.
#[derive(PartialEq, Eq, Structural, Clone, Copy, Hash, Debug)]
pub enum Character {
    Cat,
    Mario,
    Luigi,
    SpaceInvader,
    SpaceInvaderEnemy1,
    SpaceInvaderEnemy2,
}

/// An on-screen character: its action, its playback cursor and its box.
pub struct Sprite {
    pub character: Character,
    pub action: Action,
    pub animation_state: AnimationState,
    pub shape: Rect,
}

impl Sprite {
    /// Advances the animation by one tick and returns the sheet rectangle to draw.
    pub fn play_animation(&mut self, speedup_factor: &usize) -> (r: Rect)
        requires
            old(self).animation_state.wf(),
            *speedup_factor >= 1,
            old(self).animation_state.now < usize::MAX,
        ensures
            final(self).character == old(self).character,
            final(self).action == old(self).action,
            final(self).shape == old(self).shape,
            final(self).animation_state.wf(),
            final(self).animation_state == old(self).animation_state.spec_tick(*speedup_factor as int),
            r == final(self).animation_state.spec_frame(*speedup_factor as int),
    {
        self.animation_state.tick(speedup_factor)
    }

    /// Replaces the playback cursor, taking on its action.
    pub fn set_animation(&mut self, state: AnimationState)
        ensures
            final(self).character == old(self).character,
            final(self).shape == old(self).shape,
            final(self).action == state.action,
            final(self).animation_state == state,
    {
        self.action = state.action;
        self.animation_state = state;
    }
}

} // verus!
