//! Durable job-queue engine, worker-pool supervision and gateway session
//! logic of a chat-driven image service, with machine-checked contracts.
pub mod api;
pub mod archive;
pub mod attachment;
pub mod command;
pub mod error;
pub mod gateway;
pub mod icon;
pub mod limiter;
pub mod mention;
pub mod message;
pub mod pipeline;
pub mod product;
pub mod queue;
pub mod slash;
pub mod state;
pub mod store;
pub mod supervisor;
pub mod telemetry;
pub mod text;
