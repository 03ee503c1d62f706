//! Ways to name places of a table by what they hold.

pub mod by_column_name;
pub mod by_content;
pub mod locator;

pub use by_column_name::ByColumnName;
pub use by_content::ByContent;
pub use locator::Locator;
