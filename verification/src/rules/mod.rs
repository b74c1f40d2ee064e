pub mod ast;
pub mod error;
pub mod literal;
pub mod semantic;
pub mod token;
