//! A second generic matrix library: matrices stored directly as arrays of
//! columns, with vectors and unit values.
pub mod matrix;
pub mod norm;
pub mod unit;
pub mod vector;
