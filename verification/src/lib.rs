//! Border colors for the cells of a text table.
//!
//! A [`settings::style::BorderColor`] is assembled side by side and corner by
//! corner; the type of the builder records which sides already carry a color,
//! so a corner can be colored only where both of its sides are. The finished
//! description is then laid over the cells that a [`grid::config::Entity`]
//! selects inside a [`grid::config::ColoredConfig`], attribute by attribute.

pub mod grid;
pub mod settings;
