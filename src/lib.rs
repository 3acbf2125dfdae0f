//! Integer-side core of a small sphere path tracer: the plain-text pixel
//! image format, the scene container, the bounce budget of the radiance
//! recursion and the random sign draw used by the samplers.

pub mod decimal;
pub mod ppm;
pub mod scene;
pub mod rand_utils;
pub mod render;
