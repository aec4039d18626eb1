//! Probe engine of a local monitoring agent: synchronizes a map of services,
//! nodes and replicas, decides the health of each replica from probe outcomes,
//! and prepares the reports that are sent back to the status service.

pub mod chunk;
pub mod config;
pub mod cycle;
pub mod map;
pub mod poll;
pub mod replica;
pub mod report;
pub mod status;
pub mod text;
