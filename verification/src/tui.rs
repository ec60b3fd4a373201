//! The terminal client: its state, its input handling and what it draws.
pub mod layout;
pub mod event;
pub mod app;
pub mod users_list;
pub mod prompt;
pub mod confirm_exit;
pub mod render;
pub mod settings;
pub mod screen;
