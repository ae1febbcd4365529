//! Core of a desktop text-expansion tool.
//!
//! Two coupled pieces: the extension-based render pipeline (named computations
//! whose chosen output has positional arguments interpolated into it), and the
//! coordination layer between an input-monitor thread and the UI event loop
//! that owns the tray-icon state.

pub mod extension;
pub mod params;
pub mod random;
pub mod render;
pub mod text;
pub mod ui;
