//! Local persistence rules for a reading application: the book library,
//! cover selection, visual presets and user preferences.
//!
//! File access stays with the caller; every function here works on values
//! already read and says what must be written back.

pub mod error;
pub mod prefs;
pub mod text;
pub mod ident;
pub mod library;
pub mod cover;
pub mod preset;
pub mod listing;
pub mod paths;
