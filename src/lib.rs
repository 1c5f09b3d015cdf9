//! The editing engine of a terminal hex editor with a disassembly view.
//!
//! - `elf`, `pe` and `header` read executable headers, bit for bit.
//! - `disasm` decodes a buffer by a linear sweep and maps each byte to the
//!   instruction that holds it.
//! - `layout` converts between byte offsets and places on screen.
//! - `document` holds the bytes, the dirty flag and the index; `editor` adds
//!   the view and the cursor.

pub mod bytes;
pub mod elf_codes;
pub mod elf;
pub mod pe;
pub mod header;
pub mod disasm;
pub mod layout;
pub mod document;
pub mod editor;
pub mod notification;
