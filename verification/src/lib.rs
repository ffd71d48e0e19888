//! rootle's verified core: the query grammar, search ranking, list and
//! input state machines, and the small rules around config, editor and
//! cache paths.
pub mod action;
pub mod app;
pub mod cli;
pub mod commands;
pub mod cache;
pub mod clipboard;
pub mod config;
pub mod editor;
pub mod components;
pub mod keys;
pub mod mode;
pub mod paths;
pub mod provider;
pub mod sanitize;
pub mod session;
pub mod text;
