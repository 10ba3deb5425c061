//! Control library for a local LLM inference gateway that manages one
//! `llama-server` process: configuration, launch arguments, health polling,
//! model listing, load/unload bookkeeping and the generate request flow.

pub mod text;
pub mod dto;
pub mod error;
pub mod config;
pub mod state;
pub mod llama_process;
pub mod models;
pub mod handlers;
pub mod load_flow;
pub mod generate_flow;
