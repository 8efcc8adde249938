//! The integer core of a small path tracer.
//!
//! Scalar arithmetic is the caller's. This crate holds what is decided on
//! bit patterns, order keys and counts, each decision with its contract:
//!
//! - `scalar`: the order of scalars, read from their bit patterns;
//! - `color`: colour channels from and to bytes;
//! - `shapes`: the root of the sphere quadratic that counts as the hit, and
//!   the nearest hit of a scene;
//! - `materials`: whether a metal scatters, and whether a dielectric
//!   refracts or reflects;
//! - `tracer`: one light path under its bounce budget;
//! - `image`: the pixel grid, rendered row by row;
//! - `layout`: size and alignment of the memory of one row;
//! - `pool`: the number of workers to render with.

pub mod color;
pub mod image;
pub mod layout;
pub mod materials;
pub mod pool;
pub mod scalar;
pub mod shapes;
pub mod tracer;
