//! Small general helpers: numbers, hex strings, path names.

pub mod numerical;
pub mod string;
pub mod file;
pub mod generation;
pub mod compress;
