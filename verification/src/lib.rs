//! A small path-tracing render engine with a verified core.
//!
//! Geometry, shading and compositing are carried out in saturating
//! fixed-point arithmetic; randomness enters only through a single uniform
//! range draw, and every contract states what holds of every value the
//! draw may produce.

pub mod camera;
pub mod color;
pub mod fixed;
pub mod interval;
pub mod ray;
pub mod renderer;
pub(crate) mod rng;
pub mod scene_graph;
pub mod vec3;
