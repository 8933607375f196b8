//! Persistent data structures with structural sharing.

pub mod list;
pub mod utils;

pub use list::List;
