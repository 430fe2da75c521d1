//! The compose-spec document model.

pub mod service;
pub mod compose;
