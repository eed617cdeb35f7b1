//! Objects made of other objects: moved, turned, scaled, flipped, or filled
//! with fog.

pub mod constant_medium;
pub mod flip;
pub mod motion_rotate;
pub mod motion_translate;
pub mod rotate;
pub mod translate;
pub mod zoom;
