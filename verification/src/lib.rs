//! Glob-style ignore patterns, compiled to regular expressions, and the
//! matcher set that decides which file paths a scan should skip.

pub mod compile;
pub mod engine;
pub mod logger;
pub mod matcher;
pub mod paths;
pub mod rewrite;
pub mod scan;
pub mod sources;
pub mod text;

pub use logger::Logger;
pub use matcher::InvalidPatternError;
pub use matcher::Matcher;
pub use matcher::MatcherSet;
pub use scan::is_binary_buffer;
pub use scan::is_executable;
pub use scan::truncate;
pub use sources::default_patterns;
pub use sources::parse_ignore_file;
pub use sources::select_patterns;
