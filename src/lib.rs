//! A small note-taking library: note and template paths, template rendering,
//! recency lookup over directory listings, and the decisions of an editing
//! session. File-system access, prompts and processes live in the application.

pub mod text;
pub mod template;
pub mod paths;
pub mod store;
pub mod session;
pub mod config;
