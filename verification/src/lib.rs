//! A first-person camera for real-time rendering, modelled in 64-bit
//! fixed-point arithmetic so that every operation has an exact contract.
//!
//! Conventions used throughout the crate:
//! - lengths and vector components are in thousandths of a world unit,
//! - angles are in millionths of a degree,
//! - times are in milliseconds,
//! - unit-length vectors are scaled so that a length of one is `1000`.

pub mod num;
pub mod vec3;
pub mod trig;
pub mod mat4;
pub mod camera;
pub mod state;
pub mod shader;
