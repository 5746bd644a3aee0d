//! Builds the deployment overlay for the course recorder: one worker
//! service per course listed in a CSV file.

pub mod digits;
pub mod table;
pub mod course;
pub mod overlay;
pub mod deploy;
pub mod plan;
pub mod laws;
