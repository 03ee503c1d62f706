//! The grid side of the library: what a table is made of once its content is known.

pub mod config;
pub mod records;
