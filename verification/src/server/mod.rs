//! The assistant-facing tool server: rendering Confluence answers as text, the call
//! recorder's bookkeeping, and the decisions of the tool handlers.

pub mod format;
pub mod tools;
pub mod recorder;
pub mod handler;
