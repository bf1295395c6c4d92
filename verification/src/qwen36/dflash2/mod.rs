//! External block-draft companion: its checkpoint, its sequence window and its proposals.

pub mod config;
pub mod context_flow;
pub mod names;
pub mod selector;
pub mod sequence;
pub mod window;
pub mod draft;
pub mod draft_flow;
