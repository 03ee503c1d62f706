//! Configuration of a grid: positions, selections of cells and the colors of their borders.

pub mod border;
pub mod colored_config;
pub mod entity;

pub use border::Border;
pub use colored_config::ColoredConfig;
pub use entity::{Entity, Position};
