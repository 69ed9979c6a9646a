//! A gateway between channels, a language model and its memory.
//!
//! A turn comes in by a channel. It is scanned, put before the memory service and the model, and
//! answered; what was said is recorded. The model can call tools, and the agent behind it can begin
//! turns of its own accord. This library decides what is done; the program around it carries it
//! out and hands back what came of it.

pub mod adapters;
pub mod agent_runner;
pub mod auth;
pub mod btf;
pub mod budget;
pub mod codec;
pub mod config;
pub mod context_builder;
pub mod envelope;
pub mod history;
pub mod introspection;
pub mod json;
pub mod markers;
pub mod notice;
pub mod numbers;
pub mod outbound;
pub mod pipeline;
pub mod reach;
pub mod reaction;
pub mod reply;
pub mod rpc_adapter;
pub mod strings;
pub mod text;
pub mod tool_dispatcher;
pub mod tract_writer;
pub mod trollguard;
