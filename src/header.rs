use vstd::prelude::*;
use crate::elf::{ElfHeader, elf_valid};
use crate::pe::{PEHeader, pe_valid};

verus! {

/// A section of an executable, whatever its format: where its bytes lie in
/// the file and where they are loaded.
#[derive(PartialEq, Eq, Debug, Clone)]
pub struct Section {
    pub name: String,
    pub virtual_address: u64,
    pub address: u64,
    pub size: u64,
}

/// The header of the file being edited.
#[derive(PartialEq, Eq, Debug, Clone)]
pub enum Header {
    Elf(ElfHeader),
    PE(PEHeader),
    Raw,
}

impl Header {
    /// Tries ELF, then PE; `Header::Raw` when neither format applies.
    pub fn parse_header(bytes: &[u8]) -> (r: Header)
        ensures
            elf_valid(bytes@) ==> (r matches Header::Elf(h) && h.describes(bytes@)),
            !elf_valid(bytes@) && pe_valid(bytes@) ==> (r matches Header::PE(h) && h.describes(
                bytes@,
            )),
            !elf_valid(bytes@) && !pe_valid(bytes@) ==> r is Raw,
    {
        match ElfHeader::parse_header(bytes) {
            Some(header) => return Header::Elf(header),
            None => {},
        }
        match PEHeader::parse_header(bytes) {
            Some(header) => return Header::PE(header),
            None => {},
        }
        Header::Raw
    }

    /// Word size that code in the file is decoded with: 64 without a header.
    pub open spec fn spec_bitness(&self) -> u32 {
        match self {
            Header::Elf(h) => h.bitness.num_bits(),
            Header::PE(h) => h.bitness.num_bits(),
            Header::Raw => 64,
        }
    }

    pub fn bitness(&self) -> (r: u32)
        ensures
            r == self.spec_bitness(),
            r == 32 || r == 64,
    {
        match self {
            Header::Elf(header) => header.bitness(),
            Header::PE(header) => header.bitness(),
            Header::Raw => 64,
        }
    }

    pub fn entry_point(&self) -> (r: u64)
        ensures
            r == match self {
                Header::Elf(h) => h.entry_point,
                Header::PE(h) => h.address_of_entry_point as u64,
                Header::Raw => 0,
            },
    {
        match self {
            Header::Elf(header) => header.entry_point,
            Header::PE(header) => header.address_of_entry_point as u64,
            Header::Raw => 0,
        }
    }

    /// The sections of the file in table order.
    pub fn get_sections(&self) -> (r: Vec<Section>)
        ensures
            match self {
                Header::Elf(h) => r@.len() == h.section_table@.len() && forall|i: int|
                    0 <= i < r@.len() ==> {
                        &&& #[trigger] r@[i].name@ == h.section_table@[i].name@
                        &&& r@[i].virtual_address == h.section_table@[i].address
                        &&& r@[i].address == h.section_table@[i].offset
                        &&& r@[i].size == h.section_table@[i].size
                    },
                Header::PE(h) => r@.len() == h.section_table@.len() && forall|i: int|
                    0 <= i < r@.len() ==> {
                        &&& #[trigger] r@[i].name@ == h.section_table@[i].name@
                        &&& r@[i].virtual_address == h.section_table@[i].virtual_address
                        &&& r@[i].address == h.section_table@[i].pointer_to_raw_data
                        &&& r@[i].size == h.section_table@[i].size_of_raw_data
                    },
                Header::Raw => r@.len() == 0,
            },
    {
        let mut sections: Vec<Section> = Vec::new();
        match self {
            Header::Elf(header) => {
                let mut i: usize = 0;
                while i < header.section_table.len()
                    invariant
                        i <= header.section_table@.len(),
                        sections@.len() == i,
                        forall|j: int|
                            0 <= j < i ==> {
                                &&& #[trigger] sections@[j].name@ == header.section_table@[j].name@
                                &&& sections@[j].virtual_address == header.section_table@[j].address
                                &&& sections@[j].address == header.section_table@[j].offset
                                &&& sections@[j].size == header.section_table@[j].size
                            },
                    decreases header.section_table@.len() - i,
                {
                    let s = &header.section_table[i];
                    sections.push(
                        Section {
                            name: s.name.clone(),
                            virtual_address: s.address,
                            address: s.offset,
                            size: s.size,
                        },
                    );
                    i = i + 1;
                }
            },
            Header::PE(header) => {
                let mut i: usize = 0;
                while i < header.section_table.len()
                    invariant
                        i <= header.section_table@.len(),
                        sections@.len() == i,
                        forall|j: int|
                            0 <= j < i ==> {
                                &&& #[trigger] sections@[j].name@ == header.section_table@[j].name@
                                &&& sections@[j].virtual_address
                                    == header.section_table@[j].virtual_address
                                &&& sections@[j].address
                                    == header.section_table@[j].pointer_to_raw_data
                                &&& sections@[j].size == header.section_table@[j].size_of_raw_data
                            },
                    decreases header.section_table@.len() - i,
                {
                    let s = &header.section_table[i];
                    sections.push(
                        Section {
                            name: s.name.clone(),
                            virtual_address: s.virtual_address as u64,
                            address: s.pointer_to_raw_data as u64,
                            size: s.size_of_raw_data as u64,
                        },
                    );
                    i = i + 1;
                }
            },
            Header::Raw => {},
        }
        sections
    }
}

/// A buffer shorter than the smallest ELF header is neither ELF nor PE, so
/// it parses to `Header::Raw`, whatever its first bytes.
pub proof fn lemma_truncated_is_raw(bytes: Seq<u8>)
    requires
        bytes.len() < 0x34,
    ensures
        !elf_valid(bytes),
        !pe_valid(bytes),
{
}

} // verus!
