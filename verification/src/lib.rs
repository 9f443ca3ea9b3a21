//! Decoding and encoding of the two binary records exchanged between a
//! bootloader and a freshly started kernel under the Multiboot (version 1)
//! boot-information protocol.
//!
//! [`header::Header`] is the static record a kernel embeds in its image to
//! declare how it wants to be loaded; [`information::Multiboot`] is a view
//! over the dynamic record a bootloader builds at boot time to describe
//! memory, modules, symbols and the display.  [`elf_section`] reads the ELF
//! section-header tables reachable from the information record's symbol
//! field.
//!
//! All physical addresses found inside these records are translated through a
//! caller-supplied [`information::MemoryManagement`] capability before they
//! are dereferenced; the crate itself never touches raw memory.

pub mod elf_section;
pub mod header;
pub mod information;
pub mod wire;
