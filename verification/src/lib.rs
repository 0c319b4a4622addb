//! Fan control for ThinkPads: the curves, the rules and the decisions.
//!
//! Everything in this crate computes. It reads no file, touches no port and
//! asks no clock: what happened outside comes in as a value, and what should
//! happen next goes out as one.

pub mod about;
pub mod command;
pub mod config;
pub mod curve;
pub mod curve_editor;
pub mod ec;
pub mod engine;
pub mod handshake;
pub mod host;
pub mod icon;
pub mod import;
pub mod importing;
pub mod ipc;
pub mod lock;
pub mod log;
pub mod menu;
pub mod pass;
pub mod paths;
pub mod pawnio;
pub mod pawnio_status;
pub mod profiles;
pub mod prompt;
pub mod service;
pub mod startup;
pub mod text;
pub mod theme;
pub mod tray;
pub mod version;
pub mod window;
