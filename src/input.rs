use vstd::prelude::*;

verus! {

/// State of touch and pointer input; nothing is tracked yet.
pub struct InputState {}

impl InputState {
    pub fn new() -> (r: InputState)
        ensures
            r == (InputState {}),
    {
        InputState {}
    }

    /// Per-frame input update at `_now_ms` milliseconds; it has nothing to
    /// do yet and leaves the state as it is.
    #[allow(non_snake_case)]
    pub fn CheckFingerTips(&mut self, _now_ms: u64)
        ensures
            *final(self) == *old(self),
    {
    }
}

} // verus!
