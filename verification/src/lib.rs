//! A minimal line-based text search library.
//!
//! Given a query substring and a body of text, the library returns every line
//! of the text that contains the query, either case-sensitively or
//! case-insensitively, in the original line order and with the original line
//! text. A small configuration type resolves a raw argument list into a
//! validated run configuration.

pub mod casefold;
pub mod config;
pub mod laws;
pub mod search;
pub mod text;

pub use config::Config;
pub use config::Input;
pub use config::filter_content;
pub use search::search;
pub use search::search_case_ins;
pub use text::contains_str;
pub use text::split_lines;
