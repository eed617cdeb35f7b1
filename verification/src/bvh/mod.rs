//! Bounding boxes and the hierarchy built over them.

pub mod aabb;
pub mod bvh_node;
pub mod search;
