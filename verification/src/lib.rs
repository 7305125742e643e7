//! The harness-side logic of lernie's prompt machinery.

pub mod error;
pub mod order;
pub mod paths;
pub mod place;
pub mod prompt;
pub mod text;
pub mod ui;
pub mod workspace;
