//! A document engine for a personal kanban tracker: boards hold lists, lists
//! hold issues, and dependency edges between issues are kept consistent with
//! the titles they name when items are renamed or removed.

pub mod item;
pub mod container;
pub mod issue;
pub mod list;
pub mod dep;
pub mod refs;
pub mod board;
pub mod file;
pub mod resolve;
pub mod edges;
pub mod context;
pub mod laws;
