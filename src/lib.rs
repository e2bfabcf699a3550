//! Document-store access layer: a typed-value wire codec, structured query
//! construction, bearer-token cache decisions, content-addressed document ids
//! and sortable scoring strings.

pub mod json;
pub mod message;
pub mod action_items;
pub mod advice;
pub mod apps;
pub mod chat;
pub mod config;
pub mod conversation;
pub mod conversations;
pub mod decimal;
pub mod email;
pub mod encryption;
pub mod fields;
pub mod focus;
pub mod ids;
pub mod query;
pub mod records;
pub mod scoring;
pub mod store;
pub mod time;
pub mod token;
pub mod transcript;
pub mod users;
pub mod value;
pub mod writes;
