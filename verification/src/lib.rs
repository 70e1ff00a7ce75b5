//! Core logic of a clipboard-history service: which copied text is kept,
//! what is stored for a copy, how entries are summarised for display, and
//! how the stored settings are read.

pub mod capture;
pub mod format;
pub mod method;
pub mod preview;
pub mod privacy;
pub mod query;
pub mod service;
pub mod settings;
pub mod text;
pub mod view;
