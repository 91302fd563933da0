//! Lifecycle and registration logic of an enclave-hosted gateway node:
//! one-shot configuration gates, epoch-aligned registration scheduling,
//! the shared chain-client slot and job-event deduplication.

pub mod epoch;
pub mod error;
pub mod gate;
pub mod backoff;
pub mod registration;
pub mod crypto;
pub mod gateway;
pub mod chain_client;
pub mod jobs;
pub mod randomness;
pub mod stream;
