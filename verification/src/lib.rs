pub mod text;
pub mod wrap;
pub mod alerts;
pub mod config;
pub mod json;
pub mod app;
pub mod tasks;
pub mod skills;
pub mod input;
pub mod messages;
pub mod report;
pub mod llm;
pub mod view;
