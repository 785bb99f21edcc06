//! Verified storage logic for a chat client: conversations with branching
//! message histories, projects, presets and usage records, persisted in SQLite.

pub mod db;
pub mod text;
pub mod json;
pub mod message;
pub mod history;
pub mod search;
pub mod export;
pub mod conversation_storage;
pub mod project_storage;
pub mod preset_storage;
pub mod usage_storage;
pub mod settings;
