//! Scriptable, event-driven control of window managers.

pub mod actor;
pub mod capability;
pub mod cli;
pub mod compositor;
pub mod config;
pub mod config_file;
pub mod control;
pub mod controller;
pub mod engine;
pub mod environment;
pub mod event;
pub mod hyprland;
pub mod json;
pub mod keyed;
pub mod mangowc;
pub mod mock;
pub mod names;
pub mod paths;
pub mod protocol;
pub mod socket;
pub mod text;
pub mod value;
