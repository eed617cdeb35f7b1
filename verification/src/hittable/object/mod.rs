//! The shapes.

pub mod cube;
pub mod moving_sphere;
pub mod rectangle;
pub mod ring;
pub mod sphere;
pub mod triangle;
