//! Generic fixed-size linear algebra: matrices over a storage type, vectors,
//! angles and unit values.
pub mod angle;
pub mod mat3;
pub mod mat4;
pub mod matn;
pub mod matrix;
pub mod norm;
pub mod scalar;
pub mod storage;
pub mod unit;
pub mod vector;
