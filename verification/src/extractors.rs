pub mod deb;
pub mod elf;

pub use deb::DebExtractor;
pub use elf::{analyze_desktop, analyze_elf, ELFInfo, ElfOutputs};
