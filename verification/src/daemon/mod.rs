pub mod client;
pub mod error;
pub mod keys;
pub mod order;
pub mod protocol;
pub mod store;
pub mod worker;
pub mod lifecycle;
pub mod service;
pub mod state;
pub mod laws;
