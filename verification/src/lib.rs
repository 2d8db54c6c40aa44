//! Core logic of a keyboard-driven terminal image viewer: view geometry,
//! navigation over a filtered image queue, classification bookkeeping,
//! command-line parsing, key bindings, line editing and raw-container parsing.

pub mod adjustments;
pub mod cache;
pub mod classifications;
pub mod cli;
pub mod commands;
pub mod config;
pub mod decode;
pub mod display;
pub mod keys;
pub mod line_editor;
pub mod manifest;
pub mod palette;
pub mod path;
pub mod queue;
pub mod raw;
pub mod remap;
pub mod sort;
pub mod source;
pub mod text;
pub mod types;
pub mod viewer;
