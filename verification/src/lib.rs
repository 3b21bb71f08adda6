//! The discrete core of a recursive ray tracer.
//!
//! The renderer around this library works in floating-point: vectors,
//! colours, surface geometry and light falloff. Every decision that
//! the renderer takes, however, is discrete, and lives here, verified:
//! which of a ray's hits is the closest one within bounds, with scales
//! carried as order-preserving 64-bit keys ([`intersection`]); which
//! texel of a decoded texture grid a sample reads ([`texture`]); which
//! terms the shading engine evaluates for a hit surface, per render
//! mode and remaining recursion depth ([`shading`]); and how a frame's
//! pixels are cut into tiles for parallel workers and reassembled into
//! the flat row-major byte buffer the frame hands out ([`scheduler`]).

pub mod intersection;
pub mod scheduler;
pub mod shading;
pub mod texture;
