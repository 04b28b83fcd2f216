use vstd::prelude::*;
use std::rc::Rc;
use crate::sprite::{Action, Character, NUM_ACTIONS};
use crate::types::{Image, Rect, Vec2i};

verus! {

/// A sequence of sheet rectangles shown one after another. `frame_timings[i]`
/// is the tick, from the animation's start, at which `frames[i]` becomes current.
#[derive(PartialEq, Clone, Debug)]
pub struct Animation {
    pub frames: Vec<Rect>,
    pub frame_timings: Vec<usize>,
    pub loops: bool,
}

/// Animation ticks elapsed between `start` and `now` when each animation tick
/// lasts `speed` real ticks.
pub open spec fn elapsed(start: int, now: int, speed: int) -> int {
    (now - start) / speed
}

impl Animation {
    /// At least one frame, one timing per frame, the first at 0, in order.
    pub open spec fn wf(&self) -> bool {
        &&& self.frames@.len() > 0
        &&& self.frame_timings@.len() == self.frames@.len()
        &&& self.frame_timings@[0] == 0
        &&& forall|i: int, j: int|
            0 <= i <= j < self.frame_timings@.len() ==> #[trigger] self.frame_timings@[i]
                <= #[trigger] self.frame_timings@[j]
    }

    /// The index of the frame shown: the elapsed animation ticks, held at the
    /// last frame once the animation has run out.
    pub open spec fn frame_index(&self, start: int, now: int, speed: int) -> int {
        let k = elapsed(start, now, speed);
        if k >= self.frames@.len() {
            self.frames@.len() - 1
        } else {
            k
        }
    }

    pub open spec fn spec_is_finished(&self, start: int, now: int, speed: int) -> bool {
        elapsed(start, now, speed) >= self.frames@.len()
    }

    /// The first frame.
    pub fn initial_frame(&self) -> (r: Rect)
        requires
            self.frames@.len() > 0,
        ensures
            r == self.frames@[0],
    {
        self.frames[0]
    }

    /// The frame shown at tick `now` of an animation started at `start_time`:
    /// `frames[(now - start_time) / speedup_factor]`, held at the last frame
    /// once that index runs past the end.
    pub fn current_frame(&self, start_time: usize, now: usize, speedup_factor: &usize) -> (r: Rect)
        requires
            self.frames@.len() > 0,
            *speedup_factor >= 1,
            start_time <= now,
        ensures
            r == self.frames@[self.frame_index(start_time as int, now as int, *speedup_factor as int)],
            elapsed(start_time as int, now as int, *speedup_factor as int) < self.frames@.len() ==> r
                == self.frames@[elapsed(start_time as int, now as int, *speedup_factor as int)],
    {
        let k = (now - start_time) / *speedup_factor;
        let last = self.frames.len() - 1;
        if k > last {
            self.frames[last]
        } else {
            self.frames[k]
        }
    }

    /// Whether the elapsed animation ticks have reached the number of frames.
    pub fn is_finished(&self, start_time: usize, now: usize, speedup_factor: &usize) -> (r: bool)
        requires
            *speedup_factor >= 1,
            start_time <= now,
        ensures
            r == self.spec_is_finished(start_time as int, now as int, *speedup_factor as int),
    {
        let k = (now - start_time) / *speedup_factor;
        k >= self.frames.len()
    }
}

/// One actor's playback cursor into a shared animation.
#[derive(PartialEq, Clone, Debug)]
pub struct AnimationState {
    pub start_time: usize,
    pub now: usize,
    pub action: Action,
    pub animation: Rc<Animation>,
}

impl AnimationState {
    /// The cursor after one tick: one tick later, or back at tick 0 when a
    /// looping animation has run out.
    pub open spec fn spec_tick(self, speed: int) -> AnimationState {
        let next = self.now + 1;
        AnimationState {
            now: if self.animation.loops && self.animation.spec_is_finished(
                self.start_time as int,
                next,
                speed,
            ) {
                0
            } else {
                next as usize
            },
            ..self
        }
    }

    /// The frame this cursor shows.
    pub open spec fn spec_frame(self, speed: int) -> Rect {
        self.animation.frames@[self.animation.frame_index(self.start_time as int, self.now as int, speed)]
    }

    /// A cursor at or after its start; a looping one counts from tick 0, where
    /// it restarts.
    pub open spec fn wf(self) -> bool {
        &&& self.animation.frames@.len() > 0
        &&& self.start_time <= self.now
        &&& self.animation.loops ==> self.start_time == 0
    }

    /// Advances the cursor by one tick and returns the frame it then shows. A
    /// looping animation that has run out restarts from tick 0.
    pub fn tick(&mut self, speedup_factor: &usize) -> (r: Rect)
        requires
            old(self).wf(),
            *speedup_factor >= 1,
            old(self).now < usize::MAX,
        ensures
            final(self).wf(),
            *final(self) == old(self).spec_tick(*speedup_factor as int),
            r == final(self).spec_frame(*speedup_factor as int),
            old(self).animation.loops && old(self).animation.spec_is_finished(
                old(self).start_time as int,
                old(self).now + 1,
                *speedup_factor as int,
            ) ==> final(self).now == 0 && r == old(self).animation.frames@[0],
    {
        self.now += 1;
        if self.animation.is_finished(self.start_time, self.now, speedup_factor) && self.animation.loops {
            self.now = 0;
        }
        self.animation.current_frame(self.start_time, self.now, speedup_factor)
    }
}

/// The animations of a character archetype, one optional slot per action,
/// and the sprite sheet their frames are cut from.
pub struct AnimationSet {
    pub character: Character,
    pub image: Image,
    pub animations: Vec<Option<Rc<Animation>>>,
}

/// The frames of a horizontal strip of a sheet: one `w` by `h` frame at each
/// x of `xs`, all at height `y`.
pub open spec fn strip_frames(xs: Seq<i32>, y: i32, w: i32, h: i32) -> Seq<Rect> {
    Seq::new(xs.len(), |i: int| Rect { pos: Vec2i { x: xs[i], y: y }, sz: Vec2i { x: w, y: h } })
}

/// Where each character's animations lie on its sheet: the x of each frame,
/// then the strip's y, and the frame width and height. Actions a character
/// lacks have none.
pub open spec fn sheet_strip(c: Character, a: Action) -> Option<(Seq<i32>, i32, i32, i32)> {
    match (c, a) {
        (Character::Cat, Action::Walk) => Some((seq![2273i32, 2803, 3343, 3883], 3882i32, 443i32, 401i32)),
        (Character::Cat, Action::Jump) => Some(
            (seq![1187i32, 1717, 1710, 2220, 2770, 3310, 3850], 2431i32, 443i32, 401i32),
        ),
        (Character::Cat, Action::Die) => Some(
            (seq![3962i32, 542, 1142, 1742, 2332, 2902, 3462, 104], 70i32, 443i32, 401i32),
        ),
        (Character::Mario, Action::Jump) => Some((seq![0i32, 21, 42, 63, 84, 105], 185i32, 22i32, 34i32)),
        (Character::Mario, Action::Walk) => Some((seq![0i32, 21, 42, 63, 84], 152i32, 22i32, 34i32)),
        (Character::Mario, Action::Die) => Some((seq![42i32], 86i32, 22i32, 34i32)),
        (Character::Luigi, Action::Jump) => Some(
            (seq![126i32, 147, 168, 189, 210, 231], 185i32, 22i32, 34i32),
        ),
        (Character::Luigi, Action::Walk) => Some((seq![126i32, 147, 168, 189, 210], 152i32, 22i32, 34i32)),
        (Character::Luigi, Action::Die) => Some((seq![168i32], 86i32, 22i32, 34i32)),
        _ => None,
    }
}

/// A looping animation over a horizontal strip, one frame every ten ticks.
fn strip_animation(xs: Vec<i32>, y: i32, w: i32, h: i32) -> (r: Rc<Animation>)
    requires
        xs@.len() > 0,
        xs@.len() <= 100,
    ensures
        r.wf(),
        r.loops,
        r.frames@ == strip_frames(xs@, y, w, h),
{
    let mut frames: Vec<Rect> = Vec::new();
    let mut frame_timings: Vec<usize> = Vec::new();
    let mut i: usize = 0;
    while i < xs.len()
        invariant
            i <= xs@.len(),
            xs@.len() <= 100,
            frames@.len() == i,
            frame_timings@.len() == i,
            forall|j: int| 0 <= j < i ==> #[trigger] frames@[j] == strip_frames(xs@, y, w, h)[j],
            forall|j: int| 0 <= j < i ==> #[trigger] frame_timings@[j] == 10 * j,
        decreases xs@.len() - i,
    {
        frames.push(Rect { pos: Vec2i { x: xs[i], y }, sz: Vec2i { x: w, y: h } });
        frame_timings.push(10 * i);
        i += 1;
    }
    assert(frames@ =~= strip_frames(xs@, y, w, h));
    Rc::new(Animation { frames, frame_timings, loops: true })
}

impl AnimationSet {
    /// One slot per action, and every animation present is well formed.
    pub open spec fn wf(&self) -> bool {
        &&& self.animations@.len() == NUM_ACTIONS
        &&& forall|i: int| 0 <= i < NUM_ACTIONS ==> (#[trigger] self.animations@[i] matches Some(a) ==> a.wf())
    }

    /// Whether the set has an animation for `a`.
    pub open spec fn has(&self, a: Action) -> bool {
        self.animations@[a.spec_index()] is Some
    }

    /// The animation for `a`, when the set has one.
    pub open spec fn spec_animation(&self, a: Action) -> Rc<Animation> {
        self.animations@[a.spec_index()]->0
    }

    /// The shared animation for `action`.
    pub fn get_animation(&self, action: Action) -> (r: &Rc<Animation>)
        requires
            self.wf(),
            self.has(action),
        ensures
            *r == self.spec_animation(action),
    {
        self.animations[action.index()].as_ref().unwrap()
    }

    /// A fresh cursor, at tick 0, into the animation for `action`.
    pub fn play_animation(&self, action: Action) -> (r: AnimationState)
        requires
            self.wf(),
            self.has(action),
        ensures
            r.start_time == 0,
            r.now == 0,
            r.action == action,
            r.animation == self.spec_animation(action),
            r.wf(),
    {
        let a = self.get_animation(action);
        AnimationState { start_time: 0, now: 0, action: action, animation: a.clone() }
    }

    /// The sprite sheet.
    pub fn get_image(&self) -> (r: &Image)
        ensures
            *r == self.image,
    {
        &self.image
    }

    pub fn set_animation(&mut self, animations: Vec<Option<Rc<Animation>>>)
        ensures
            final(self).animations == animations,
            final(self).image == old(self).image,
            final(self).character == old(self).character,
    {
        self.animations = animations;
    }

    pub fn set_image(&mut self, image: Image)
        ensures
            final(self).image == image,
            final(self).animations == old(self).animations,
            final(self).character == old(self).character,
    {
        self.image = image;
    }

    pub fn set_character(&mut self, character: Character)
        ensures
            final(self).character == character,
            final(self).image == old(self).image,
            final(self).animations == old(self).animations,
    {
        self.character = character;
    }

    /// The animations of `character`, cut from its sprite sheet `image`, as
    /// `sheet_strip` lays them out; every one loops.
    pub fn new(character: Character, image: Image) -> (r: Self)
        ensures
            r.wf(),
            r.character == character,
            r.image == image,
            forall|a: Action|
                match #[trigger] sheet_strip(character, a) {
                    Some(s) => r.has(a) && r.spec_animation(a).frames@ == strip_frames(s.0, s.1, s.2, s.3)
                        && r.spec_animation(a).loops,
                    None => !r.has(a),
                },
    {
        let mut animations: Vec<Option<Rc<Animation>>> = Vec::new();
        let mut i: usize = 0;
        while i < NUM_ACTIONS
            invariant
                i <= NUM_ACTIONS,
                animations@.len() == i,
                forall|j: int| 0 <= j < i ==> #[trigger] animations@[j] is None,
            decreases NUM_ACTIONS - i,
        {
            animations.push(None);
            i += 1;
        }
        match character {
            Character::Cat => {
                animations[Action::Walk.index()] = Some(strip_animation(vec![2273, 2803, 3343, 3883], 3882, 443, 401));
                animations[Action::Jump.index()] = Some(
                    strip_animation(vec![1187, 1717, 1710, 2220, 2770, 3310, 3850], 2431, 443, 401),
                );
                animations[Action::Die.index()] = Some(
                    strip_animation(vec![3962, 542, 1142, 1742, 2332, 2902, 3462, 104], 70, 443, 401),
                );
            },
            Character::Mario => {
                animations[Action::Jump.index()] = Some(strip_animation(vec![0, 21, 42, 63, 84, 105], 185, 22, 34));
                animations[Action::Walk.index()] = Some(strip_animation(vec![0, 21, 42, 63, 84], 152, 22, 34));
                animations[Action::Die.index()] = Some(strip_animation(vec![42], 86, 22, 34));
            },
            Character::Luigi => {
                animations[Action::Jump.index()] = Some(
                    strip_animation(vec![126, 147, 168, 189, 210, 231], 185, 22, 34),
                );
                animations[Action::Walk.index()] = Some(strip_animation(vec![126, 147, 168, 189, 210], 152, 22, 34));
                animations[Action::Die.index()] = Some(strip_animation(vec![168], 86, 22, 34));
            },
            _ => {},
        }
        let r = AnimationSet { character, image, animations };
        assert forall|a: Action|
            match #[trigger] sheet_strip(character, a) {
                Some(s) => r.has(a) && r.spec_animation(a).frames@ == strip_frames(s.0, s.1, s.2, s.3)
                    && r.spec_animation(a).loops,
                None => !r.has(a),
            } by {
            match a {
                Action::Walk => {},
                Action::Jump => {},
                Action::Die => {},
                Action::Stand => {},
                Action::Glide => {},
            }
        }
        r
    }
}

/// A looping animation that has run out shows its first frame on the next tick,
/// and goes on from there: the cursor is back at tick 0.
pub proof fn lemma_loop_restarts(st: AnimationState, speed: int)
    requires
        speed >= 1,
        st.wf(),
        st.animation.loops,
        st.animation.spec_is_finished(st.start_time as int, st.now + 1, speed),
        st.now < usize::MAX,
    ensures
        st.spec_tick(speed).now == 0,
        st.spec_tick(speed).spec_frame(speed) == st.animation.frames@[0],
{
}

} // verus!
