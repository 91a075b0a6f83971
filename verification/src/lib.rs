//! The core of a conversational agent, verified.
//!
//! A turn takes what the user says, asks a language model, runs the tools
//! that the model asks for, and feeds their results back until the model
//! answers or a budget of rounds is spent. This crate holds the decisions of
//! such a turn: the context and the prompt that the model gets, the tool
//! calls that its reply holds, which calls are let through, and what the log
//! of the conversation becomes. Calling the model, the tools and the disk is
//! left to the caller.

pub mod access;
pub mod config;
pub mod context;
pub mod host;
pub mod json;
pub mod memory;
pub mod message;
pub mod number;
pub mod orchestrator;
pub mod parser;
pub mod prompt;
pub mod store;
pub mod text;
pub mod toolkit;
