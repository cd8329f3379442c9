pub mod command;
pub mod config;
pub mod health;
pub mod keys;
pub mod metadata;
pub mod registry;
pub mod relay;
mod seq_facts;
pub mod text;
pub mod window;
pub mod worker;
