//! Verified core of the `deploy-sc` deployment tool.
pub mod cli;
pub mod config;
pub mod context;
pub mod detect;
pub mod docker;
pub mod error;
pub mod git;
pub mod k8s;
pub mod packaging;
pub mod process;
pub mod text;
pub mod workflow;
