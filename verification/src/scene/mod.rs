pub mod model;
pub mod material;
