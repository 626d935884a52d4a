pub mod run;
pub mod extensions;
