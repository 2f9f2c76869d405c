use vstd::prelude::*;

verus! {

/// The smallest button scale, in percent.
pub const BUTTON_SCALE_MIN: u32 = 100;

/// The largest button scale, in percent.
pub const BUTTON_SCALE_MAX: u32 = 200;

/// The user's settings.
#[derive(Clone, Copy, Debug, PartialEq, Eq, Structural)]
pub struct Settings {
    /// Whether moving the pivot also sets both offsets back to zero.
    pub reset_offset: bool,
    /// The size of the position buttons, in percent.
    pub button_scale: u32,
}

impl Settings {
    /// The default settings: offsets are reset, buttons at 100%.
    pub fn new() -> (s: Self)
        ensures
            s.reset_offset,
            s.button_scale == 100,
    {
        Settings { reset_offset: true, button_scale: 100 }
    }

    /// Whether the button scale lies in the range the settings window allows.
    pub open spec fn scale_in_range(self) -> bool {
        BUTTON_SCALE_MIN <= self.button_scale <= BUTTON_SCALE_MAX
    }
}

/// `v` brought into `[BUTTON_SCALE_MIN, BUTTON_SCALE_MAX]`.
pub open spec fn clamp_scale_spec(v: u32) -> u32 {
    if v < BUTTON_SCALE_MIN {
        BUTTON_SCALE_MIN
    } else if v > BUTTON_SCALE_MAX {
        BUTTON_SCALE_MAX
    } else {
        v
    }
}

/// Brings a button scale into `[BUTTON_SCALE_MIN, BUTTON_SCALE_MAX]`, as `u32::clamp` does.
pub fn clamp_button_scale(v: u32) -> (r: u32)
    ensures
        r == clamp_scale_spec(v),
        BUTTON_SCALE_MIN <= r <= BUTTON_SCALE_MAX,
{
    if v < BUTTON_SCALE_MIN {
        BUTTON_SCALE_MIN
    } else if v > BUTTON_SCALE_MAX {
        BUTTON_SCALE_MAX
    } else {
        v
    }
}

/// Clamping keeps a scale that is already in range, and clamping twice is clamping once.
pub proof fn lemma_clamp_scale(v: u32)
    ensures
        BUTTON_SCALE_MIN <= v <= BUTTON_SCALE_MAX ==> clamp_scale_spec(v) == v,
        clamp_scale_spec(clamp_scale_spec(v)) == clamp_scale_spec(v),
{
}

} // verus!
