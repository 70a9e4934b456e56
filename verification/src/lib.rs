//! Connection and prepared-statement resource management for a multi-tenant
//! SQL database access provider, together with the control-plane value types
//! that surround it.

pub mod cli;
pub mod config;
pub mod ctl;
pub mod engine;
pub mod lifecycle;
pub mod otel;
pub mod pool;
pub mod registry;
pub mod text;
pub mod text_map;
pub mod token;
