pub mod text;
pub mod markdown;
pub mod notion;
pub mod notion_api;
pub mod round_trip;
pub mod slug;
pub mod json;
pub mod config;
pub mod commands;
