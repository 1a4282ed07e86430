//! Line search over in-memory text: every line that contains a query,
//! with its zero-based line number.

pub mod config;
pub mod laws;
pub mod lines;
pub mod search;
pub mod text;

pub use config::Config;
pub use search::{search, search_case_insensitive, SearchResult};
