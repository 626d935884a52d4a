pub mod error;
pub mod main;
pub mod meta;
