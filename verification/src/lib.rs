pub mod text;
pub mod utils;
pub mod path;
pub mod config;
pub mod cli;
pub mod tasks;
