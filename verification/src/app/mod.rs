//! The application: what the user asks for, and what comes of it.
pub mod app_laws;
pub mod commands;
pub mod controller;
pub mod diff;
pub mod effects;
pub mod headless;
pub mod intent;
pub mod interactive;
pub mod keyboard;
pub mod pointer;
pub mod sessions;
pub mod slash;
pub mod turn;
pub mod ui_effects;
