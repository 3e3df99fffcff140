pub mod ai_monitor;
pub mod config;
pub mod files;
pub mod json;
pub mod klippy;
pub mod text;
pub mod web;
