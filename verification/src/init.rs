//! Starting new nodes.
pub mod templates;
