//! Keyboard-to-gamepad decision logic.
pub mod action;
pub mod engine;
pub mod engine_laws;
pub mod install;
pub mod key;
pub mod logger;
pub mod mapping;
pub mod pad_state;
pub mod prereq;
pub mod proc;
pub mod setup;
pub mod setup_window;
pub mod table;
pub mod text;
pub mod uninstall;
pub mod update;
pub mod updater;
