//! Core logic of an executable-document engine.

pub mod agent;
pub mod chat;
pub mod codec;
pub mod command;
pub mod compile;
pub mod digest;
pub mod execution;
pub mod format;
pub mod graph;
pub mod if_block;
pub mod images;
pub mod kernel_space;
pub mod models;
pub mod node;
pub mod node_property;
pub mod paragraphs;
pub mod parsers;
pub mod patch;
pub mod plan;
pub mod planner;
pub mod prompt_block;
pub mod runner;
pub mod serve;
pub mod status;
pub mod sync_dom;
pub mod text;
pub mod types;
pub mod utf16;
pub mod value;
