//! The verified core of an agent that lets a language model work on a remote
//! host: the conversation and its wire forms for two providers, the decoders
//! of their event streams, the checks on tool inputs, and the line editor with
//! its undo history that the execution server offers.

pub mod agent;
pub mod anthropic;
pub mod client;
pub mod common;
pub mod editor;
pub mod json;
pub mod openai;
pub mod rpc;
pub mod shell;
pub mod snippet;
pub mod stream;
pub mod text;
