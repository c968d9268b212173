//! The discrete core of a brute-force ray tracer.
//!
//! Geometry is computed by the caller in floating point. This library takes
//! what each shape reports for a ray as a table of plain values, with
//! distances as ordered integer keys, and decides, with proof, which shape a
//! ray strikes, whether a light is occluded, which light determines the
//! colour of a surface point, and how a traced frame is written into the
//! output buffer.

pub mod distance;
pub mod illumination;
pub mod intersection;
pub mod pixel_buffer;
pub mod scene;
