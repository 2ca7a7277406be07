//! Verified core logic of the vol LLM agent front end, YAML agent loader and wiki tooling.

pub mod overlay;
pub mod graph;
pub mod text;
pub mod json;
pub mod events;
pub mod conversation;
pub mod tools;
pub mod workspace;
pub mod rpc;
pub mod connection;
pub mod sessions;
pub mod paths;
pub mod yaml_agent;
pub mod wiki;
pub mod cache;
pub mod capabilities;
pub mod panel;
pub mod graph_view;
pub mod labels;
pub mod log_view;
pub mod mcp_view;
pub mod form;
