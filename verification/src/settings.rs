//! Settings that change how a table looks.

pub mod cell_option;
pub mod color;
pub mod location;
pub mod style;
pub mod table_option;

pub use cell_option::CellOption;
pub use color::Color;
pub use table_option::TableOption;
