//! Reading ELF images: headers, sections and symbols.
pub mod decoder;
