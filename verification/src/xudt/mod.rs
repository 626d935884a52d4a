pub mod error;
pub mod meta;
pub mod access;
pub mod extensions;
pub mod validation;
pub mod entry;
