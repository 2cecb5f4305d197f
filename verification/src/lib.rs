//! Planning and bookkeeping logic of the workflow manager: text, YAML and
//! JSON extraction, command-line phase selection, the prompts of its agents
//! and the reading of their answers, execution batching, agent stream
//! bookkeeping, the process runtime's decisions, and the lines its terminal
//! interface draws.

pub mod text;
pub mod workflow_utils;
pub mod research;
pub mod task_planner;
pub mod yaml_model;
pub mod json_model;
pub mod ui;
pub mod runtime;
pub mod executions;
