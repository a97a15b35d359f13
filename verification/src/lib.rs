//! Line, word and symbol counts of byte streams, and the tabular report
//! that presents them.

pub mod config;
pub mod count;
pub mod engine;
pub mod report;
pub mod stream;
pub mod text;

pub use config::{Config, Flag, Matches, Symbols};
pub use count::Count;
pub use engine::count;
pub use report::{build_report, Row};
pub use stream::{Counter, FeedError};
