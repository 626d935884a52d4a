pub mod error;
pub mod meta_cell;
pub mod update;
pub mod run;
