//! Conversion of a rectangular grid of heights into a closed, watertight
//! triangulated solid: a relief surface on top, a flat base below it, and
//! vertical walls along the four sides.
//!
//! Heights and the base thickness are fixed-point values carried as `u32`;
//! every vertex coordinate and every normal component of the produced mesh
//! is exact integer data, so the shape of the solid is stated and proved
//! without rounding. Scaling to physical units, unit-length normalisation
//! and serialisation are left to the caller.

pub mod grid;
pub mod laws;
pub mod mesh;
pub mod mesher;
pub mod model;
pub mod watertight;

pub use grid::HeightGrid;
pub use grid::MeshError;
pub use mesh::Triangle;
pub use mesh::Vec3;
pub use mesher::generate;
