pub mod error;
pub mod mode;
pub mod shards;
pub mod meta;
pub mod entry;
