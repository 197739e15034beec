//! Decision core of an autonomous cognitive engine.
pub mod cognition;
pub mod facts;
pub mod heartbeat;
pub mod json;
pub mod memory;
pub mod models;
pub mod perception;
pub mod session;
pub mod text;
