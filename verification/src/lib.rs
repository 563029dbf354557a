pub mod text;
pub mod paths;
pub mod numbers;
pub mod config;
pub mod entities;
pub mod cli;
pub mod llm;
pub mod rag;
pub mod graph;
pub mod backend;
pub mod doctor;
pub mod models;
pub mod parse;
pub mod host;
pub mod bootstrap;
pub mod engine;
