//! The integer core of a desktop aquarium: the caustic light field that
//! ripples over the tank backdrop, the backdrop's tone mapping, the swimmers'
//! trails, the creatures' activity rules, the stocking of a fresh tank, the
//! air-stone slot rings and the viewer's key commands.

use vstd::prelude::*;

pub mod light;
pub mod trail;
pub mod behavior;
pub mod tank;
pub mod bubbles;
pub mod controls;

verus! {
} // verus!
