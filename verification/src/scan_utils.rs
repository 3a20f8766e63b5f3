//! Rules that scan file contents, and the machinery that applies them.
pub mod evil;
pub mod hardcoded;
pub mod quality;
pub mod secrets;
pub mod utils;
