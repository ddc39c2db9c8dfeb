//! Small shared containers.
pub mod stack;
