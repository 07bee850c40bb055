//! Verified core of the NetWatcher network-monitoring pipeline.
pub mod attack;
pub mod capture;
pub mod config;
pub mod enrich;
pub mod event;
pub mod gateway;
pub mod indexer;
pub mod kafka;
pub mod mcp;
pub mod parser;
pub mod security;
pub mod shipper;
pub mod text;
pub mod threat;
