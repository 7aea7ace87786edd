//! Clipboard-driven Japanese input helper: splitting of typed text into
//! conversion blocks, the reconversion state machine and the decisions taken
//! when the clipboard changes.

pub mod config;
pub mod text;
pub mod converter;
pub mod conversion;
pub mod tsf_conversion;
pub mod handler;
