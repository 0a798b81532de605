//! A latency-hiding gateway core for conversational AI: the dual-source
//! streaming orchestrator's verified parts. The protocol-tolerant frame
//! decoder turns raw upstream text of two wire dialects into normalized
//! chunks, the composer stitches a synthetic quick chunk in front of the
//! real stream, the bounded-memory statistics engine keeps per-mode latency
//! percentiles, and the retry schedule wraps every upstream call. Network
//! transport and task plumbing stay outside; each function here carries its
//! contract.

pub mod config;
pub mod errors;
pub mod json;
pub mod models;
pub mod service;
pub mod stats;
pub mod text;
