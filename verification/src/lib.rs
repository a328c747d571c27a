//! The exact, integer side of a recursive ray tracer: scene bookkeeping by
//! index, hit selection over ordered ray parameters, and the plain-text image
//! format that a rendered canvas is written in.

pub mod shape_index;
pub mod coordinate;
pub mod materials;
pub mod component;
pub mod composite;
pub mod leaf;
pub mod color;
pub mod canvas;
pub mod reading;
pub mod number;
pub mod intersections;
pub mod matrix;
pub mod transform;
pub mod shapes;
pub mod cubes;
pub mod patterns;
pub mod rays;
pub mod world;
