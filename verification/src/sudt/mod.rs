pub mod error;
pub mod meta;
pub mod entry;
