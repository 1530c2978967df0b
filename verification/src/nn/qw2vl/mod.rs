//! The networks of the vision tower of Qwen2-VL.

pub mod merger;
pub mod patch_embd;
