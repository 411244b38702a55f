//! Defaults of a project's configuration.
use vstd::prelude::*;

verus! {

/// The default background color (RGB 0-255): a dark blue-gray.
pub fn default_bg_color() -> (r: [u8; 3])
    ensures
        r@ == seq![25u8, 25u8, 38u8],
{
    let r = [25u8, 25u8, 38u8];
    assert(r@ =~= seq![25u8, 25u8, 38u8]);
    r
}

/// The default target frame rate.
pub fn default_target_fps() -> (r: i32)
    ensures
        r == 60,
{
    60
}

/// Whether VSync is on by default.
pub fn default_vsync() -> (r: bool)
    ensures
        r,
{
    true
}

} // verus!
