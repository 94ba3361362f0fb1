//! A perception-aware accent color extractor and dynamic theme generator.

pub mod args;
pub mod cache;
pub mod commands;
pub mod config;
pub mod error;
pub mod extract;
pub mod hex;
pub mod order;
pub mod paths;
pub mod template;
pub mod theme;
