pub mod material;
pub mod mesh;
