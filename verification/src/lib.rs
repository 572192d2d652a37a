//! A directory browser as a state machine: the entries of one directory in a
//! fixed order, a focused row, double-press detection, and the decision which
//! directory a double press enters.
//!
//! The crate holds no view and reads no directory. A host hands in what it
//! read and what the user did, and gets back what to show and what to read.

pub mod order;
pub mod paths;
pub mod listing;
pub mod error;
pub mod snapshot;
pub mod model;
pub mod render;
pub mod selector;

pub use error::DirectoryError;
pub use model::{FocusMove, InputEvent};
pub use render::{Action, RenderCommand};
pub use selector::{PathSelector, Response, DOUBLE_CLICK_MS};
pub use snapshot::{Children, DirectorySnapshot, Reading};
