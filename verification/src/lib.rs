//! The logic of `lazy`, a small tool that manages one containerized application:
//! it reads a `KEY=VALUE` configuration, plans what a command line asks for,
//! edits a Dockerfile and says how the container engine is to be run.
//!
//! The library touches neither files nor processes. What has to be done to them
//! it hands out as values (see `commands`), and what came of it comes back as
//! values.

pub mod cli;
pub mod commands;
pub mod config;
pub mod text;
pub mod utils;
