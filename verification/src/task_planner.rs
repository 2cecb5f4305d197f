//! Task planner workflow: command-line arguments, task data types and the
//! execution planning that groups tasks into batches.

pub mod types;
pub mod execution_plan;
pub mod utils;
pub mod cli;
pub mod workflow;
pub mod prompts;
pub mod review;
