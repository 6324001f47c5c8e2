pub mod args;
pub mod config;
pub mod decimal;
pub mod formatter;
pub mod module;
pub mod modules;
pub mod number;
pub mod scheduler;
pub mod text;
pub mod utils;
