//! Verified core of a local terminal coding agent for Ollama models.
pub mod text;
pub mod tools;
pub mod config;
pub mod agents;
pub mod ollama;
pub mod app;
pub mod ui;
pub mod laws;
