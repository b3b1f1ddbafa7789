//! Label-driven scheduling of `docker compose` commands: the configuration,
//! label parsing, command construction and reconciliation logic of the
//! scheduler, with their contracts.
pub mod errors;
pub mod text;
pub mod config;
pub mod docker_api;
pub mod commands;
pub mod job_map;
pub mod scheduler;
