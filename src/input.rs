use vstd::prelude::*;

verus! {

/// Whether key `k` went down since the previous frame, from this frame's and
/// the previous frame's key states.
pub fn key_pressed(now_keys: &[bool], prev_keys: &[bool], k: usize) -> (r: bool)
    requires
        k < now_keys@.len(),
        k < prev_keys@.len(),
    ensures
        r == (now_keys@[k as int] && !prev_keys@[k as int]),
{
    now_keys[k] && !prev_keys[k]
}

/// Whether key `k` went up since the previous frame.
pub fn key_released(now_keys: &[bool], prev_keys: &[bool], k: usize) -> (r: bool)
    requires
        k < now_keys@.len(),
        k < prev_keys@.len(),
    ensures
        r == (!now_keys@[k as int] && prev_keys@[k as int]),
{
    !now_keys[k] && prev_keys[k]
}

} // verus!
