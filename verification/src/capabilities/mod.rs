pub mod surface;
pub mod matrix;
pub mod leakage;
