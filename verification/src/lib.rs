pub mod cli;
pub mod config;
pub mod codec;
pub mod coordinator;
pub mod daemon;
pub mod dispatch;
pub mod extension;
pub mod invocation;
pub mod ipc;
pub mod number;
pub mod paths;
pub mod plan;
pub mod text;
pub mod transport;
pub mod loader;
pub mod message;
pub mod metrics;
pub mod rules;
pub mod table;
