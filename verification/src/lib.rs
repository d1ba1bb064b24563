//! Incremental, environment-aware build and deploy pipeline for contract
//! workspaces: dependency-graph ordering, a hash-based deployment cache,
//! per-environment policy, and a debounced file-watch loop.

pub mod strutil;
pub mod deps;
pub mod env_toml;
pub mod util;
pub mod update_env;
pub mod alias;
pub mod clients;
pub mod init_script;
pub mod runner;
pub mod build_cmd;
pub mod dev;
pub mod commands;
pub mod init;
pub mod soroban;
pub mod admin;
pub mod owner;
pub mod redeploy;
pub mod admin_set;
pub mod admins;
pub mod contract_call;
pub mod ft;
