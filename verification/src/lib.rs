//! Decision logic of a file watcher that re-runs a utility when files change.
//!
//! The library performs no input or output. `IoWatch` is a controller that is told
//! what happened and answers what to do next; `IgnoreMatcher` says which changed paths
//! the ignore files cover; `text` reads the list of watch targets.

pub mod error;
pub mod laws;
pub mod matcher;
pub mod model;
pub mod signal;
pub mod text;
pub mod watch;

pub use error::IoWatchError;
pub use matcher::IgnoreMatcher;
pub use model::{Action, Goal, Phase, Platform, Target};
pub use watch::{ChangeRecord, Cli, Event, IoWatch};
