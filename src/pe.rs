use vstd::prelude::*;
use crate::bytes::{Endianness, uint_at, read_u16, read_u32};
use crate::elf::{c_name, read_name, MAX_NAME_LEN};
use crate::elf_codes::Bitness;

verus! {

/// Size of one entry of a PE section table.
pub const PE_SECTION_SIZE: usize = 40;

/// One entry of a PE section table.
#[derive(PartialEq, Eq, Debug, Clone)]
pub struct PESection {
    pub name: String,
    pub virtual_size: u32,
    pub virtual_address: u32,
    pub size_of_raw_data: u32,
    pub pointer_to_raw_data: u32,
}

/// A PE section table entry with its name as characters.
pub struct PESectionView {
    pub name: Seq<char>,
    pub virtual_size: u32,
    pub virtual_address: u32,
    pub size_of_raw_data: u32,
    pub pointer_to_raw_data: u32,
}

impl View for PESection {
    type V = PESectionView;

    open spec fn view(&self) -> PESectionView {
        PESectionView {
            name: self.name@,
            virtual_size: self.virtual_size,
            virtual_address: self.virtual_address,
            size_of_raw_data: self.size_of_raw_data,
            pointer_to_raw_data: self.pointer_to_raw_data,
        }
    }
}

/// The decoded headers of a PE file.
#[derive(PartialEq, Eq, Debug, Clone)]
pub struct PEHeader {
    pub bitness: Bitness,
    pub machine: u16,
    pub address_of_entry_point: u32,
    pub section_table: Vec<PESection>,
}

pub open spec fn le(b: Seq<u8>, off: int, n: int) -> nat {
    uint_at(b, off, n, Endianness::Little)
}

/// Where the PE signature starts.
pub open spec fn pe_signature(b: Seq<u8>) -> int {
    le(b, 0x3C, 4) as int
}

/// Where the optional header starts.
pub open spec fn pe_optional_header(b: Seq<u8>) -> int {
    pe_signature(b) + 24
}

pub open spec fn pe_optional_header_size(b: Seq<u8>) -> nat {
    le(b, pe_signature(b) + 20, 2)
}

pub open spec fn pe_section_count(b: Seq<u8>) -> nat {
    le(b, pe_signature(b) + 6, 2)
}

/// Where the section table starts.
pub open spec fn pe_section_table(b: Seq<u8>) -> int {
    pe_optional_header(b) + pe_optional_header_size(b)
}

pub open spec fn pe_magic(b: Seq<u8>) -> nat {
    le(b, pe_optional_header(b), 2)
}

/// Every PE rule holds of `b`: a DOS stub, the signature, an optional header
/// that announces 32 or 64 bits, and a section table inside the buffer.
pub open spec fn pe_valid(b: Seq<u8>) -> bool {
    &&& b.len() >= 0x40
    &&& b[0] == 0x4D && b[1] == 0x5A
    &&& pe_optional_header(b) + 20 <= b.len()
    &&& b[pe_signature(b)] == 0x50 && b[pe_signature(b) + 1] == 0x45
    &&& b[pe_signature(b) + 2] == 0 && b[pe_signature(b) + 3] == 0
    &&& (pe_magic(b) == 0x10B || pe_magic(b) == 0x20B)
    &&& pe_section_table(b) + pe_section_count(b) * PE_SECTION_SIZE <= b.len()
}

/// The PE section table entry at `at`.
pub open spec fn pe_section_at(b: Seq<u8>, at: int) -> PESectionView {
    PESectionView {
        name: c_name(b, at, at + 8, MAX_NAME_LEN as nat),
        virtual_size: le(b, at + 8, 4) as u32,
        virtual_address: le(b, at + 12, 4) as u32,
        size_of_raw_data: le(b, at + 16, 4) as u32,
        pointer_to_raw_data: le(b, at + 20, 4) as u32,
    }
}

impl PEHeader {
    /// Every field of `self` is the one that `b` holds.
    pub open spec fn describes(&self, b: Seq<u8>) -> bool {
        &&& self.bitness == (if pe_magic(b) == 0x20B {
            Bitness::Bit64
        } else {
            Bitness::Bit32
        })
        &&& self.machine == le(b, pe_signature(b) + 4, 2)
        &&& self.address_of_entry_point == le(b, pe_optional_header(b) + 16, 4)
        &&& self.section_table@.len() == pe_section_count(b)
        &&& forall|i: int|
            0 <= i < self.section_table@.len() ==> #[trigger] self.section_table@[i]@
                == pe_section_at(b, pe_section_table(b) + i * PE_SECTION_SIZE)
    }

    pub fn bitness(&self) -> (r: u32)
        ensures
            r == self.bitness.num_bits(),
    {
        self.bitness.to_num_bits()
    }

    /// Parses the PE headers of `bytes`; `None` when `bytes` breaks a rule
    /// of the format.
    pub fn parse_header(bytes: &[u8]) -> (r: Option<PEHeader>)
        ensures
            r is Some <==> pe_valid(bytes@),
            r matches Some(h) ==> h.describes(bytes@),
    {
        let b = bytes;
        let len = b.len();
        let e = Endianness::Little;
        if len < 0x40 || b[0] != 0x4D || b[1] != 0x5A {
            return None;
        }
        let sig = read_u32(b, 0x3C, e) as usize;
        if sig > len || len - sig < 44 {
            return None;
        }
        if b[sig] != 0x50 || b[sig + 1] != 0x45 || b[sig + 2] != 0 || b[sig + 3] != 0 {
            return None;
        }
        let machine = read_u16(b, sig + 4, e);
        let count = read_u16(b, sig + 6, e) as usize;
        let optional_size = read_u16(b, sig + 20, e) as usize;
        let opt = sig + 24;
        let magic = read_u16(b, opt, e);
        let bitness = if magic == 0x10B {
            Bitness::Bit32
        } else if magic == 0x20B {
            Bitness::Bit64
        } else {
            return None;
        };
        let address_of_entry_point = read_u32(b, opt + 16, e);
        if optional_size > len - opt || count * PE_SECTION_SIZE > len - opt - optional_size {
            return None;
        }
        let table = opt + optional_size;
        let mut section_table: Vec<PESection> = Vec::new();
        let mut i: usize = 0;
        while i < count
            invariant
                len == b@.len(),
                e == Endianness::Little,
                table == pe_section_table(b@),
                count == pe_section_count(b@),
                table + count * PE_SECTION_SIZE <= len,
                i <= count,
                section_table@.len() == i,
                forall|j: int|
                    0 <= j < i ==> #[trigger] section_table@[j]@ == pe_section_at(
                        b@,
                        table + j * PE_SECTION_SIZE,
                    ),
            decreases count - i,
        {
            let at = table + i * PE_SECTION_SIZE;
            proof {
                assert(at + PE_SECTION_SIZE <= table + count * PE_SECTION_SIZE) by (nonlinear_arith)
                    requires
                        at == table + i * PE_SECTION_SIZE,
                        i < count,
                ;
            }
            let section = PESection {
                name: read_name(b, at, at + 8),
                virtual_size: read_u32(b, at + 8, e),
                virtual_address: read_u32(b, at + 12, e),
                size_of_raw_data: read_u32(b, at + 16, e),
                pointer_to_raw_data: read_u32(b, at + 20, e),
            };
            assert(section@ == pe_section_at(b@, table + i * PE_SECTION_SIZE));
            let ghost before = section_table@;
            section_table.push(section);
            assert forall|j: int| 0 <= j < i + 1 implies #[trigger] section_table@[j]@ == pe_section_at(
                b@,
                table + j * PE_SECTION_SIZE,
            ) by {
                if j < i {
                    assert(section_table@[j] == before[j]);
                }
            }
            i = i + 1;
        }
        Some(PEHeader { bitness, machine, address_of_entry_point, section_table })
    }
}

} // verus!
