pub mod aggregate;
pub mod config;
pub mod consistency;
pub mod controller;
pub mod executor;
pub mod laws;
pub mod options;
pub mod orchestrator;
pub mod process;
pub mod sorting;
pub mod target;
pub mod text;
pub mod timing;
