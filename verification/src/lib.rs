pub mod action_laws;
pub mod actions;
pub mod args;
pub mod bookmark_laws;
pub mod bookmarks;
pub mod cache;
pub mod config;
pub mod config_items;
pub mod config_laws;
pub mod config_rows;
pub mod entry_laws;
pub mod input;
pub mod json;
pub mod keymap;
pub mod layout;
pub mod log;
pub mod matchers;
pub mod models;
pub mod property_list;
pub mod rank;
pub mod refresh;
pub mod repos;
pub mod request_laws;
pub mod requests;
pub mod screen;
pub mod screen_laws;
pub mod services;
pub mod sources;
pub mod state;
pub mod state_laws;
pub mod tabs;
pub mod text;
