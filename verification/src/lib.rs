//! The rules by which a Debian package is inspected without being installed.
//!
//! The crate reads what the package tools and the file system gave: the text
//! of the control file, the entries of the payload tree, the output of the
//! ELF inspection tool, the text of desktop files. From these it builds the
//! report on the package. It runs no program and opens no file itself.

pub mod commands;
pub mod extractors;
pub mod render;
pub mod string_map;
pub mod text;
pub mod utils;
