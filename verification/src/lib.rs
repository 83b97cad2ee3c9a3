//! Verified core of the No-IP dynamic update client.
pub mod text;
pub mod update;
pub mod hostnames;
pub mod cli;
pub mod secrets;
pub mod service;
pub mod config;
pub mod hosts_api;
pub mod clock;
pub mod dashboard;
