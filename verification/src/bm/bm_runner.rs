pub mod ab_runner;
pub mod time;
pub mod config;
pub mod deepening;
