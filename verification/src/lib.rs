//! Turns the newline-delimited JSON records of a compiler driver into a
//! report of findings grouped by source file.

pub mod checkstyle;
pub mod json;
pub mod message;
pub mod noise;
pub mod text;
