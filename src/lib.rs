pub mod models;
pub mod state;
pub mod llm;
