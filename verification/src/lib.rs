//! Verified core of a terminal status line for AI coding sessions.
pub mod config;
pub mod loader;
pub mod segment_group;
pub mod segment_list;
pub mod segments;
pub mod statusline;
pub mod style;
pub mod text;
pub mod theme_nord;
pub mod transcript;
pub mod width;
