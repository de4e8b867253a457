//! Session, configuration and sandbox-provisioning logic of the NJU CLI web service.

pub mod text;
pub mod cookie;
pub mod config;
pub mod sandbox;
pub mod docker;
pub mod provision;
pub mod session;
