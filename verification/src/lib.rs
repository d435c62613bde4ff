//! Lifecycle and script-preparation rules for hosting a JavaScript engine.

pub mod engine;
pub mod page;
