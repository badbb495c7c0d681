pub mod config;
pub mod discover;
pub mod diskstats;
pub mod error;
pub mod led;
pub mod monitor;
pub mod startup;
pub mod text;
