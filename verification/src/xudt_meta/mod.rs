pub mod error;
pub mod config;
pub mod parser;
pub mod shards;
pub mod token;
pub mod state;
pub mod update;
pub mod entry;
