//! The two measuring programs that stand beside the interface: what they measure on, and when.
pub mod native;
pub mod richtext;
