//! Parsing, change detection and message building for the router's pages.

pub mod calls;
pub mod clock;
pub mod html;
pub mod monitor;
pub mod stats;
pub mod text;
