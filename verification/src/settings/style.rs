//! Styling of borders.

pub mod border_color;
pub mod on;

pub use border_color::BorderColor;
pub use on::{On, SideState};
