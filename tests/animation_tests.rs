use engine::animations::{Animation, AnimationSet, AnimationState};
use engine::game::GameState;
use engine::sprite::{Action, Character, Sprite};
use engine::types::{Image, Rect, Vec2i};
use std::rc::Rc;

fn frame(x: i32) -> Rect {
    Rect { pos: Vec2i { x, y: 0 }, sz: Vec2i { x: 8, y: 8 } }
}

fn three_frames(loops: bool) -> Animation {
    Animation { frames: vec![frame(0), frame(8), frame(16)], frame_timings: vec![0, 10, 20], loops }
}

#[test]
fn current_frame_indexes_by_elapsed_animation_ticks() {
    let a = three_frames(false);
    let speed = 2usize;
    for now in 0..6usize {
        assert_eq!(a.current_frame(0, now, &speed), a.frames[now / speed]);
    }
    assert_eq!(a.current_frame(10, 13, &speed), frame(8));
    assert_eq!(a.current_frame(10, 14, &speed), frame(16));
}

#[test]
fn current_frame_holds_last_frame_once_finished() {
    let a = three_frames(false);
    let speed = 3usize;
    assert!(!a.is_finished(0, 8, &speed));
    assert!(a.is_finished(0, 9, &speed));
    assert_eq!(a.current_frame(0, 9, &speed), frame(16));
    assert_eq!(a.current_frame(0, 1000, &speed), frame(16));
}

#[test]
fn initial_frame_is_first_frame() {
    let a = three_frames(true);
    assert_eq!(a.initial_frame(), frame(0));
    assert_eq!(a.current_frame(5, 5, &1), frame(0));
}

#[test]
fn tick_restarts_looping_animation_at_tick_zero() {
    let mut st = AnimationState { start_time: 0, now: 0, action: Action::Walk, animation: Rc::new(three_frames(true)) };
    let speed = 1usize;
    assert_eq!(st.tick(&speed), frame(8));
    assert_eq!(st.now, 1);
    assert_eq!(st.tick(&speed), frame(16));
    assert_eq!(st.now, 2);
    // elapsed reaches frames.len(): back to tick 0 and the first frame
    assert_eq!(st.tick(&speed), frame(0));
    assert_eq!(st.now, 0);
    assert_eq!(st.animation.current_frame(st.start_time, st.now, &speed), frame(0));
    assert_eq!(st.tick(&speed), frame(8));
}

#[test]
fn tick_with_speedup_factor_slows_playback() {
    let mut st = AnimationState { start_time: 0, now: 0, action: Action::Walk, animation: Rc::new(three_frames(true)) };
    let speed = 2usize;
    let shown: Vec<Rect> = (0..7).map(|_| st.tick(&speed)).collect();
    assert_eq!(shown, vec![frame(0), frame(8), frame(8), frame(16), frame(16), frame(0), frame(0)]);
}

#[test]
fn tick_non_looping_freezes_on_last_frame() {
    let mut st = AnimationState { start_time: 0, now: 0, action: Action::Die, animation: Rc::new(three_frames(false)) };
    let speed = 1usize;
    for _ in 0..2 {
        st.tick(&speed);
    }
    assert_eq!(st.tick(&speed), frame(16));
    assert_eq!(st.now, 3);
    assert_eq!(st.tick(&speed), frame(16));
    assert_eq!(st.now, 4);
}

#[test]
fn animation_set_for_cat_has_walk_jump_die() {
    let set = AnimationSet::new(Character::Cat, Image::new(Vec2i { x: 4, y: 4 }));
    let walk = set.get_animation(Action::Walk);
    assert_eq!(walk.frames.len(), 4);
    assert_eq!(walk.frames[0], Rect { pos: Vec2i { x: 2273, y: 3882 }, sz: Vec2i { x: 443, y: 401 } });
    assert_eq!(walk.frames[3], Rect { pos: Vec2i { x: 3883, y: 3882 }, sz: Vec2i { x: 443, y: 401 } });
    assert!(walk.loops);
    assert_eq!(walk.frame_timings, vec![0, 10, 20, 30]);
    assert_eq!(set.get_animation(Action::Jump).frames.len(), 7);
    assert_eq!(set.get_animation(Action::Die).frames.len(), 8);
    assert!(set.animations[Action::Stand.index()].is_none());
    assert!(set.animations[Action::Glide.index()].is_none());
    assert_eq!(set.character, Character::Cat);
}

#[test]
fn animation_set_for_luigi_uses_its_own_columns() {
    let set = AnimationSet::new(Character::Luigi, Image::new(Vec2i { x: 1, y: 1 }));
    let die = set.get_animation(Action::Die);
    assert_eq!(die.frames, vec![Rect { pos: Vec2i { x: 168, y: 86 }, sz: Vec2i { x: 22, y: 34 } }]);
    let jump = set.get_animation(Action::Jump);
    assert_eq!(jump.frames[5].pos, Vec2i { x: 231, y: 185 });
    let mario = AnimationSet::new(Character::Mario, Image::new(Vec2i { x: 1, y: 1 }));
    assert_eq!(mario.get_animation(Action::Walk).frames[1].pos, Vec2i { x: 21, y: 152 });
}

#[test]
fn animation_set_without_table_has_no_animations() {
    let set = AnimationSet::new(Character::SpaceInvader, Image::new(Vec2i { x: 1, y: 1 }));
    assert!(set.animations.iter().all(|a| a.is_none()));
}

#[test]
fn play_animation_starts_a_fresh_shared_cursor() {
    let set = AnimationSet::new(Character::Mario, Image::new(Vec2i { x: 2, y: 2 }));
    let st = set.play_animation(Action::Jump);
    assert_eq!(st.start_time, 0);
    assert_eq!(st.now, 0);
    assert_eq!(st.action, Action::Jump);
    assert!(Rc::ptr_eq(&st.animation, set.get_animation(Action::Jump)));
}

#[test]
fn animation_set_setters_replace_fields() {
    let mut set = AnimationSet::new(Character::Mario, Image::new(Vec2i { x: 2, y: 2 }));
    set.set_character(Character::Luigi);
    assert_eq!(set.character, Character::Luigi);
    set.set_image(Image::new(Vec2i { x: 3, y: 1 }));
    assert_eq!(set.get_image().sz, Vec2i { x: 3, y: 1 });
    set.set_animation(vec![None, None, None, None, None]);
    assert!(set.animations.iter().all(|a| a.is_none()));
}

#[test]
fn sprite_plays_and_switches_animation() {
    let set = AnimationSet::new(Character::Mario, Image::new(Vec2i { x: 2, y: 2 }));
    let mut sprite = Sprite {
        character: Character::Mario,
        action: Action::Walk,
        animation_state: set.play_animation(Action::Walk),
        shape: Rect { pos: Vec2i { x: 0, y: 0 }, sz: Vec2i { x: 20, y: 32 } },
    };
    let speed = 5usize;
    for _ in 0..4 {
        assert_eq!(sprite.play_animation(&speed).pos, Vec2i { x: 0, y: 152 });
    }
    assert_eq!(sprite.play_animation(&speed).pos, Vec2i { x: 21, y: 152 });
    sprite.set_animation(set.play_animation(Action::Jump));
    assert_eq!(sprite.action, Action::Jump);
    assert_eq!(sprite.play_animation(&speed).pos, Vec2i { x: 0, y: 185 });
}

#[test]
fn game_state_starts_walking() {
    let gs = GameState::new(Character::Luigi, Image::new(Vec2i { x: 2, y: 2 }));
    assert_eq!(gs.speedup_factor, 5);
    assert_eq!(gs.sprite.action, Action::Walk);
    assert_eq!(gs.sprite.shape, Rect { pos: Vec2i { x: 20, y: 20 }, sz: Vec2i { x: 20, y: 32 } });
    assert_eq!(gs.sprite.animation_state.animation.frames[0].pos, Vec2i { x: 126, y: 152 });
}
