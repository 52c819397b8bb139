//! Modifier-key bits carried in key events.

use vstd::prelude::*;

verus! {

pub const CTRL: u8 = 1;
pub const ALT: u8 = 2;
pub const SHIFT: u8 = 4;
pub const META: u8 = 8;

} // verus!
