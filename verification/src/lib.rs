//! The decision core of a path tracer.
//!
//! Real numbers are held by their *ordinal* (see [`basic::Scalar`]): a signed
//! integer whose order is the order of the double it stands for. Everything in
//! this crate depends on order, sign and identity alone, so every result is
//! exact. The arithmetic that produces the numbers is the caller's: it comes
//! in as numbers already worked out, or as functions to call.
//!
//! - [`basic`]: scalars, triples of them, rays, bases.
//! - [`bvh`]: bounding boxes, the hierarchy over them, and the search for the
//!   nearest hit through it.
//! - [`hittable`]: hits, lists of objects, the shapes and what is made of
//!   them, each with what is decided about a hit on it.
//! - [`material`], [`pdf`], [`texture`]: what a surface does with a ray, the
//!   densities that directions are drawn from, and the choice of colours.
//! - [`render`]: the estimate of the light along a ray, and the sharing out
//!   of an image among workers.

pub mod basic;
pub mod bvh;
pub mod hittable;
pub mod material;
pub mod pdf;
pub mod render;
pub mod texture;
