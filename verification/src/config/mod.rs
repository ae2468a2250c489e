//! The program's settings.
pub mod data;
