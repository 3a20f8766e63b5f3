//! Scrut: a source-code scanner and generator of passwords, random numbers and checksums.
pub mod args;
pub mod config;
pub mod confirm;
pub mod gen_utils;
pub mod generate;
pub mod logging;
pub mod scan;
pub mod scan_utils;
pub mod text;
