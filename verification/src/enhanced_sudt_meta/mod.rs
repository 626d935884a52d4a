pub mod error;
pub mod main;
pub mod meta_cell;
pub mod update;
