pub mod text;
pub mod glob;
pub mod memory;
pub mod error;
pub mod manager;
pub mod curator;
pub mod json;
pub mod message;
pub mod llm;
pub mod channels;
pub mod config;
pub mod security;
pub mod tools;
pub mod skills;
pub mod reviewer;
pub mod agent;
pub mod storage;
pub mod laws;
pub mod cli;
pub mod gateway;
pub mod registry;
