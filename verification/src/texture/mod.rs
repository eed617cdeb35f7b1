//! Textures: the colour of a surface, point by point.

pub mod checker;
pub mod gradient;
pub mod solid_color;
