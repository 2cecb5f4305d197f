//! Research workflow: command-line arguments, configuration, data types and
//! the decisions between its phases.

pub mod cli;
pub mod types;
pub mod workflow;
pub mod phases;

pub use types::{CodebaseAnalysis, PromptsData, ResearchPrompt, ResearchResult};
pub use workflow::WorkflowConfig;
