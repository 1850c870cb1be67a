//! A cautious disk cleaner's core: path safety, scanning and deletion planning.
pub mod pathname;
pub mod platform;
pub mod snapshot;
pub mod safety;
pub mod cleaners;
pub mod scanner;
pub mod audit;
pub mod executor;
pub mod commands;
