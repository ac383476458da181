//! Numeric and image-buffer core for a ray tracer: a dimension-generic
//! vector algebra over an exact scalar field, a concrete 3-D vector, point
//! and ray, and a fixed-size pixel buffer that serializes to the plain-text
//! P3 image format.

pub mod color;
pub mod field;
pub mod image;
pub mod ray;
pub mod vector;
