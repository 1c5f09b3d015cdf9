use vstd::prelude::*;
use crate::disasm::{InstructionIndex, Instruction};
use crate::elf::elf_valid;
use crate::header::Header;
use crate::pe::pe_valid;

verus! {

/// The value of hexadecimal digit `c`, in either case.
pub open spec fn hex_value(c: char) -> Option<u8> {
    if '0' <= c <= '9' {
        Some((c as u32 - '0' as u32) as u8)
    } else if 'a' <= c <= 'f' {
        Some((c as u32 - 'a' as u32 + 10) as u8)
    } else if 'A' <= c <= 'F' {
        Some((c as u32 - 'A' as u32 + 10) as u8)
    } else {
        None
    }
}

pub fn hex_digit_value(c: char) -> (r: Option<u8>)
    ensures
        r == hex_value(c),
{
    if '0' <= c && c <= '9' {
        Some((c as u32 - '0' as u32) as u8)
    } else if 'a' <= c && c <= 'f' {
        Some((c as u32 - 'a' as u32 + 10) as u8)
    } else if 'A' <= c && c <= 'F' {
        Some((c as u32 - 'A' as u32 + 10) as u8)
    } else {
        None
    }
}

/// `old` with its high (or low) digit replaced by `digit`.
pub open spec fn with_digit(old: u8, digit: u8, high: bool) -> u8 {
    if high {
        (digit * 16 + old % 16) as u8
    } else {
        ((old / 16) * 16 + digit) as u8
    }
}

/// The bytes of a file with what is derived from them: the header, read once
/// when the file is loaded, and the instruction index, rebuilt after every
/// change.
pub struct Document {
    pub data: Vec<u8>,
    pub header: Header,
    pub index: InstructionIndex,
    pub dirty: bool,
}

impl Document {
    /// The index is the linear sweep of the current bytes.
    pub open spec fn wf(&self) -> bool {
        &&& self.index.covers(self.data@.len())
        &&& self.index.sweeps(self.data@, self.header.spec_bitness())
    }

    /// Loads `data`: parses its header and decodes it.
    pub fn new(data: Vec<u8>) -> (r: Document)
        ensures
            r.wf(),
            r.data@ == data@,
            !r.dirty,
            elf_valid(data@) ==> (r.header matches Header::Elf(h) && h.describes(data@)),
            !elf_valid(data@) && pe_valid(data@) ==> (r.header matches Header::PE(h)
                && h.describes(data@)),
            !elf_valid(data@) && !pe_valid(data@) ==> r.header is Raw,
    {
        let header = Header::parse_header(data.as_slice());
        let index = InstructionIndex::build(data.as_slice(), header.bitness());
        Document { data, header, index, dirty: false }
    }

    /// Writes `value` at `offset` and decodes the buffer again; the buffer
    /// becomes dirty when the byte changes.
    pub fn set_byte(&mut self, offset: usize, value: u8)
        requires
            old(self).wf(),
            offset < old(self).data@.len(),
        ensures
            final(self).wf(),
            final(self).data@ == old(self).data@.update(offset as int, value),
            final(self).dirty == (old(self).dirty || old(self).data@[offset as int] != value),
            final(self).header == old(self).header,
    {
        let old_byte = self.data[offset];
        self.data.set(offset, value);
        if old_byte != value {
            self.dirty = true;
        }
        let bitness = self.header.bitness();
        self.index = InstructionIndex::build(self.data.as_slice(), bitness);
    }

    /// Replaces the high (or low) digit of the byte at `offset` with hex
    /// digit `value`; any other character changes nothing. Returns whether
    /// `value` was a hex digit.
    pub fn edit_nibble(&mut self, offset: usize, high_byte: bool, value: char) -> (r: bool)
        requires
            old(self).wf(),
            offset < old(self).data@.len(),
        ensures
            final(self).wf(),
            r == hex_value(value) is Some,
            final(self).header == old(self).header,
            match hex_value(value) {
                Some(d) => {
                    let b = with_digit(old(self).data@[offset as int], d, high_byte);
                    &&& final(self).data@ == old(self).data@.update(offset as int, b)
                    &&& final(self).dirty == (old(self).dirty || old(self).data@[offset as int]
                        != b)
                },
                None => final(self).data@ == old(self).data@ && final(self).dirty == old(
                    self,
                ).dirty,
            },
            hex_value(value) is None ==> *final(self) == *old(self),
    {
        match hex_digit_value(value) {
            Some(d) => {
                let old_byte = self.data[offset];
                let b = if high_byte {
                    d * 16 + old_byte % 16
                } else {
                    (old_byte / 16) * 16 + d
                };
                self.set_byte(offset, b);
                true
            },
            None => false,
        }
    }

    /// Records that the buffer was written out.
    pub fn mark_saved(&mut self)
        ensures
            !final(self).dirty,
            final(self).data@ == old(self).data@,
            final(self).header == old(self).header,
            final(self).index == old(self).index,
    {
        self.dirty = false;
    }

    /// The instruction that holds the byte at `offset`.
    pub fn get_instruction_at(&self, offset: usize) -> (r: &Instruction)
        requires
            self.wf(),
            offset < self.data@.len(),
        ensures
            *r == self.index.instructions@[self.index.offsets@[offset as int] as int],
            r.address <= offset < r.address + r.length,
    {
        let ordinal = self.index.offsets[offset];
        &self.index.instructions[ordinal]
    }
}

/// What kind of character a byte stands for; the view colours bytes by it.
#[derive(PartialEq, Eq, Debug, Clone, Copy, Structural)]
pub enum ByteClass {
    Null,
    EndOfLine,
    Whitespace,
    Alphanumeric,
    Symbol,
    Other,
}

/// The class of byte `b`.
pub open spec fn class_of(b: u8) -> ByteClass {
    if b == 0x00 {
        ByteClass::Null
    } else if b == 0x0A || b == 0x0C || b == 0x0D {
        ByteClass::EndOfLine
    } else if b == 0x20 || b == 0x09 || b == 0x0B {
        ByteClass::Whitespace
    } else if 0x30 <= b <= 0x39 || 0x41 <= b <= 0x5A || 0x61 <= b <= 0x7A {
        ByteClass::Alphanumeric
    } else if 0x20 <= b <= 0x7E {
        ByteClass::Symbol
    } else {
        ByteClass::Other
    }
}

pub fn byte_class(b: u8) -> (r: ByteClass)
    ensures
        r == class_of(b),
{
    match b {
        0x00 => ByteClass::Null,
        0x0A | 0x0C | 0x0D => ByteClass::EndOfLine,
        0x20 | 0x09 | 0x0B => ByteClass::Whitespace,
        0x30..=0x39 | 0x41..=0x5A | 0x61..=0x7A => ByteClass::Alphanumeric,
        0x20..=0x7E => ByteClass::Symbol,
        _ => ByteClass::Other,
    }
}

/// The upper-case hex digit for `v` (below 16).
pub open spec fn hex_char(v: u8) -> char {
    if v < 10 {
        ((v + 0x30) as u8) as char
    } else {
        ((v - 10 + 0x41) as u8) as char
    }
}

/// The two upper-case hex digits of `input`, high first.
pub fn u8_to_hex(input: u8) -> (r: [char; 2])
    ensures
        r[0] == hex_char(input / 16),
        r[1] == hex_char(input % 16),
{
    let high = input / 16;
    let low = input % 16;
    let h = if high < 10 {
        (high + 0x30) as char
    } else {
        (high - 10 + 0x41) as char
    };
    let l = if low < 10 {
        (low + 0x30) as char
    } else {
        (low - 10 + 0x41) as char
    };
    [h, l]
}

} // verus!
