pub mod generator;
pub mod geometry;
pub mod hull;
