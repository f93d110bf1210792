//! The orchestration core of a status bar: a registry of independently
//! updating modules, capability-keyed shared listeners, serialized update
//! dispatch, and per-module configuration-override resolution.
pub mod battery;
pub mod color;
pub mod config;
pub mod cpu;
pub mod decimal;
pub mod enabled_modules;
pub mod hyprland;
pub mod listener;
pub mod memory;
pub mod registry;
pub mod render;
pub mod text;
pub mod volume;
pub mod wayfire;
