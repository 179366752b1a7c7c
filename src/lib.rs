//! Service lifecycle and port coordination for a local workflow runtime and a
//! local model server: port allocation, readiness decisions, the process
//! table, log relaying and model download tracking.

pub mod config;
pub mod installer;
pub mod launcher;
pub mod ports;
pub mod prober;
pub mod pull;
pub mod relay;
pub mod system;
pub mod text;
