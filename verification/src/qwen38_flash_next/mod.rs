//! Qwen3.8 Flash Next text-model support.

pub mod benchmark;
pub mod benchmark_flow;
pub mod config;
pub mod config_laws;
pub mod config_reader;
pub mod execution;
pub mod forward;
pub mod forward_flow;
pub mod forward_laws;
pub mod forward_runs;
pub mod forward_whole;
pub mod gdn_benchmark;
pub mod hyper_benchmark;
pub mod hyperconnection;
pub mod hyper_flow;
pub mod loading;
pub mod model;
pub mod mtp;
pub mod mtp_flow;
pub mod ple;
pub mod ple_laws;
pub mod qsa_benchmark;
pub mod speculative;
pub mod state;
pub mod verifier_flow;
