//! Theme translation for terminal configuration files: a canonical color
//! palette is mapped onto a target's color schema, and that schema is patched
//! into the target's existing YAML document without touching anything else.

pub mod alacritty;
pub mod error;
pub mod patch;
pub mod target;
pub mod theme;
pub mod yaml;
