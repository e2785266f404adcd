//! Model management and output processing for the Qwen3-ASR speech
//! recognition engine.
pub mod download;
pub mod engine;
pub mod model;
pub mod provider;
pub mod text;
pub mod utils;
