//! Incremental line alignment for a growing, self-correcting transcript, and
//! the two-cadence engine that hands new content to persistence and translation.
pub mod buffer;
pub mod diff;
pub mod engine;
pub mod lines;
pub mod text;

pub use buffer::SyncBuffer;
pub use diff::extract_new_lines;
pub use engine::{Engine, FastStep, PersistStep};
pub use lines::split_lines;
pub use text::{is_blank, persisted_record};
