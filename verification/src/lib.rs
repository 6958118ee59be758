pub mod account;
pub mod auth;
pub mod chat;
pub mod config;
pub mod message;
pub mod text;
pub mod chat_search;
pub mod guess_code;
pub mod relay;
