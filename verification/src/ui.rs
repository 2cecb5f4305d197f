//! What the terminal interface shows, as styled lines: the formatting of
//! chat messages, the tool call log and the tree of a running workflow.

pub mod styled;
pub mod markdown;
pub mod chat;
pub mod tree;
pub mod workflows;
pub mod screens;
pub mod tabs;
pub mod components;
