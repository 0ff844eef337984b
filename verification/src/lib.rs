//! Compute manager for HPC workloads: the decision logic behind the coman
//! command line tool and terminal UI, with its contracts.
pub mod focus;
pub mod docker;
pub mod docker_laws;
pub mod text;
pub mod cscs;
pub mod pairs;
pub mod handlers;
pub mod ports;
pub mod messages;
pub mod model;
pub mod cli;
pub mod completion;
pub mod components;
pub mod ssh;
pub mod forward;
pub mod job;
pub mod config;
pub mod usage;
pub mod keyring;
pub mod transfer;
pub mod app_loop;
pub mod config_doc;
pub mod keys;
pub mod status_bar;
pub mod file_tree;
