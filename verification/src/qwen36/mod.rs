//! Hybrid Qwen3.6 text model: batched execution, drafting and caching.

pub mod allocation;
pub mod attention;
pub mod attention_flow;
pub mod batch;
pub mod batch_append;
pub mod batch_laws;
pub mod cache;
pub mod cache_laws;
pub mod capacity_laws;
pub mod capture;
pub mod dflash2;
pub mod execution;
pub mod ffn;
pub mod ffn_flow;
pub mod gdn;
pub mod gdn_flow;
pub mod linear;
pub mod linear_flow;
pub mod model;
pub mod mtp;
pub mod mtp_flow;
pub mod operations;
pub mod operations_flow;
pub mod plan;
pub mod projection;
pub mod projection_laws;
pub mod readiness_laws;
pub mod schedule;
pub mod schedule_flow;
pub mod speculative;
pub mod verify_flow;
pub mod workspace;
