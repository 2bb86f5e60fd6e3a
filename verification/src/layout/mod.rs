pub mod base;
pub mod geometry;
pub mod constraints;
pub mod sizing;
pub mod sizing_algorithm;
pub mod measuring;
pub mod size_to_fit;
pub mod constraint_solver;
pub mod solving;
pub mod physical_placement;
pub mod minimal_block;
pub mod measurement;
