//! Reusable pieces of the workflow phases: YAML extraction, agent stream
//! bookkeeping and batch contexts.

pub mod yaml;
pub mod agent;
pub mod batch;
