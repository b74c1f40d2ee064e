pub mod syntax;
pub mod tree;
pub mod access;
pub mod env;
pub mod lua;
pub mod error;
pub mod expand;
pub mod manifest;
pub mod registry;
pub mod load;
