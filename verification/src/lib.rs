//! Verified logic of the sUDT / xUDT token type scripts, their metadata scripts and the
//! xUDT AccessList shard script.
pub mod ascii;
pub mod byte32;
pub mod bytes;
pub mod chain;
pub mod config;
pub mod domain;
pub mod molecule;
pub mod script;
pub mod sys;
pub mod types;
pub mod sudt;
pub mod sudt_meta;
pub mod xudt;
pub mod xudt_meta;
pub mod access_list;
pub mod enhanced_sudt;
pub mod enhanced_sudt_meta;
pub mod enhanced_xudt;
pub mod enhanced_xudt_meta;
