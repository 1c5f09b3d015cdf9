use hex_patch::elf::{Elf, ElfHeader};
use hex_patch::elf_codes::{Bitness, FileType, InstructionSet, ABI};
use hex_patch::bytes::Endianness;
use hex_patch::header::Header;

fn put_u16(b: &mut Vec<u8>, at: usize, v: u16) {
    b[at..at + 2].copy_from_slice(&v.to_le_bytes());
}

fn put_u32(b: &mut Vec<u8>, at: usize, v: u32) {
    b[at..at + 4].copy_from_slice(&v.to_le_bytes());
}

fn put_u64(b: &mut Vec<u8>, at: usize, v: u64) {
    b[at..at + 8].copy_from_slice(&v.to_le_bytes());
}

/// A 64-bit little-endian header with no sections, padded to `len` bytes.
fn minimal_elf64(len: usize) -> Vec<u8> {
    let mut b = vec![0u8; len];
    b[..9].copy_from_slice(&[0x7F, 0x45, 0x4C, 0x46, 0x02, 0x01, 0x01, 0x03, 0x00]);
    put_u16(&mut b, 0x10, 2);
    put_u16(&mut b, 0x12, 0x3E);
    b[0x14] = 1;
    b
}

fn section_header(b: &mut Vec<u8>, at: usize, name: u32, kind: u32, offset: u64, size: u64) {
    put_u32(b, at, name);
    put_u32(b, at + 4, kind);
    put_u64(b, at + 0x10, 0x40_0000 + offset);
    put_u64(b, at + 0x18, offset);
    put_u64(b, at + 0x20, size);
    put_u32(b, at + 0x28, 7);
    put_u32(b, at + 0x2C, 9);
    put_u64(b, at + 0x30, 16);
    put_u64(b, at + 0x38, 24);
}

fn symbol(b: &mut Vec<u8>, at: usize, name: u32, value: u64) {
    put_u32(b, at, name);
    put_u64(b, at + 8, value);
}

/// A 64-bit file with a null section, .text, .bss, the section name table,
/// .strtab, .symtab and .dynsym.
fn elf64_with_sections() -> Vec<u8> {
    let mut b = minimal_elf64(0x500);
    let names = b"\0.text\0.bss\0.shstrtab\0.strtab\0.symtab\0.dynsym\0";
    b[0x100..0x100 + names.len()].copy_from_slice(names);
    let symbol_names = b"\0main\0start\0dyn\0";
    b[0x180..0x180 + symbol_names.len()].copy_from_slice(symbol_names);
    symbol(&mut b, 0x200, 1, 0x1000);
    symbol(&mut b, 0x218, 6, 0x2000);
    symbol(&mut b, 0x240, 12, 0x1000);
    symbol(&mut b, 0x258, 999, 0x3000);
    let sh = 0x300;
    section_header(&mut b, sh, 0, 0, 0, 0);
    section_header(&mut b, sh + 0x40, 1, 1, 0x40, 0x10);
    section_header(&mut b, sh + 0x80, 7, 8, 0x60, 0x1000);
    section_header(&mut b, sh + 0xC0, 12, 3, 0x100, names.len() as u64);
    section_header(&mut b, sh + 0x100, 22, 3, 0x180, symbol_names.len() as u64);
    section_header(&mut b, sh + 0x140, 30, 2, 0x200, 0x30);
    section_header(&mut b, sh + 0x180, 38, 11, 0x240, 0x30);
    put_u64(&mut b, 0x18, 0x40_1000);
    put_u64(&mut b, 0x28, sh as u64);
    put_u16(&mut b, 0x3A, 0x40);
    put_u16(&mut b, 0x3C, 7);
    put_u16(&mut b, 0x3E, 3);
    b
}

#[test]
fn elf64_little_endian_minimal_header() {
    let b = minimal_elf64(0x40);
    let h = ElfHeader::parse_header(&b).expect("a valid header");
    assert_eq!(h.bitness, Bitness::Bit64);
    assert_eq!(h.bitness(), 64);
    assert_eq!(h.endianness, Endianness::Little);
    assert_eq!(h.abi, ABI::Linux);
    assert_eq!(h.file_type, FileType::EtExec);
    assert_eq!(h.instruction_set, InstructionSet::AMDx86_64);
    assert!(h.section_table.is_empty());
    assert!(h.get_symbols().is_empty());
    match Header::parse_header(&b) {
        Header::Elf(e) => {
            assert_eq!(e.bitness, Bitness::Bit64);
            assert!(e.section_table.is_empty());
        }
        other => panic!("expected an ELF header, got {:?}", other),
    }
}

#[test]
fn truncated_buffer_with_magic_is_raw() {
    let full = minimal_elf64(0x40);
    for len in 0..0x34 {
        let b = &full[..len];
        assert!(ElfHeader::parse_header(b).is_none());
        assert!(matches!(Header::parse_header(b), Header::Raw));
    }
}

#[test]
fn elf64_shorter_than_its_header_is_rejected() {
    let b = minimal_elf64(0x3F);
    assert!(ElfHeader::parse_header(&b).is_none());
}

#[test]
fn elf32_big_endian_fields() {
    let mut b = vec![0u8; 0x50];
    b[..8].copy_from_slice(&[0x7F, 0x45, 0x4C, 0x46, 0x01, 0x02, 0x01, 0x00]);
    b[0x20..0x24].copy_from_slice(&[0x00, 0x00, 0x00, 0x34]);
    b[0x10..0x12].copy_from_slice(&[0x00, 0x03]);
    b[0x12..0x14].copy_from_slice(&[0x00, 0x08]);
    b[0x14] = 1;
    b[0x18..0x1C].copy_from_slice(&[0x00, 0x40, 0x10, 0x00]);
    b[0x24..0x28].copy_from_slice(&[0x00, 0x00, 0x10, 0x01]);
    let h = ElfHeader::parse_header(&b).expect("a valid header");
    assert_eq!(h.bitness, Bitness::Bit32);
    assert_eq!(h.endianness, Endianness::Big);
    assert_eq!(h.abi, ABI::SystemV);
    assert_eq!(h.file_type, FileType::EtDyn);
    assert_eq!(h.instruction_set, InstructionSet::MIPS);
    assert_eq!(h.entry_point, 0x0040_1000);
    assert_eq!(h.flags, 0x1001);
    let header = Header::parse_header(&b);
    assert_eq!(header.bitness(), 32);
    assert_eq!(header.entry_point(), 0x0040_1000);
}

#[test]
fn unknown_codes_are_rejected() {
    let good = minimal_elf64(0x40);
    let mut bad_abi = good.clone();
    bad_abi[7] = 5;
    assert!(ElfHeader::parse_header(&bad_abi).is_none());
    let mut bad_bits = good.clone();
    bad_bits[4] = 3;
    assert!(ElfHeader::parse_header(&bad_bits).is_none());
    let mut bad_order = good.clone();
    bad_order[5] = 0;
    assert!(ElfHeader::parse_header(&bad_order).is_none());
    let mut bad_version = good.clone();
    bad_version[0x14] = 2;
    assert!(ElfHeader::parse_header(&bad_version).is_none());
    let mut bad_type = good.clone();
    put_u16(&mut bad_type, 0x10, 5);
    assert!(ElfHeader::parse_header(&bad_type).is_none());
    let mut bad_machine = good.clone();
    put_u16(&mut bad_machine, 0x12, 0x10);
    assert!(ElfHeader::parse_header(&bad_machine).is_none());
    let mut reserved_type = good.clone();
    put_u16(&mut reserved_type, 0x10, 0xFE42);
    assert_eq!(ElfHeader::parse_header(&reserved_type).unwrap().file_type, FileType::EtLoos);
}

#[test]
fn section_table_past_the_end_is_rejected() {
    let mut b = minimal_elf64(0x40);
    put_u64(&mut b, 0x28, 0x40);
    put_u16(&mut b, 0x3A, 0x40);
    put_u16(&mut b, 0x3C, 1);
    assert!(ElfHeader::parse_header(&b).is_none());
}

#[test]
fn sections_are_read_and_nobits_dropped() {
    let b = elf64_with_sections();
    let h = ElfHeader::parse_header(&b).expect("a valid header");
    let names: Vec<&str> = h.section_table.iter().map(|s| s.name.as_str()).collect();
    assert_eq!(names, vec!["", ".text", ".shstrtab", ".strtab", ".symtab", ".dynsym"]);
    let text = &h.section_table[1];
    assert_eq!(text.section_type, 1);
    assert_eq!(text.offset, 0x40);
    assert_eq!(text.size, 0x10);
    assert_eq!(text.address, 0x40_0040);
    assert_eq!(text.link, 7);
    assert_eq!(text.info, 9);
    assert_eq!(text.address_alignment, 16);
    assert_eq!(text.entry_size, 24);
    assert_eq!(h.entry_point, 0x40_1000);
    let header = Header::parse_header(&b);
    let sections = header.get_sections();
    assert_eq!(sections.len(), 6);
    assert_eq!(sections[1].name, ".text");
    assert_eq!(sections[1].address, 0x40);
    assert_eq!(sections[1].virtual_address, 0x40_0040);
    assert_eq!(sections[1].size, 0x10);
}

#[test]
fn static_symbols_override_dynamic_ones() {
    let b = elf64_with_sections();
    let h = ElfHeader::parse_header(&b).expect("a valid header");
    let symbols = h.get_symbols();
    assert_eq!(symbols.len(), 2);
    assert_eq!(symbols.get(&0x1000).map(|s| s.as_str()), Some("main"));
    assert_eq!(symbols.get(&0x2000).map(|s| s.as_str()), Some("start"));
    assert!(symbols.get(&0x3000).is_none());
    assert_eq!(h.inverse_symbol_table.get("main"), Some(&0x1000));
    assert_eq!(h.inverse_symbol_table.get("start"), Some(&0x2000));
    assert!(h.inverse_symbol_table.get("dyn").is_none());
    assert!(std::rc::Rc::ptr_eq(&symbols, &h.symbol_table));
}

#[test]
fn long_names_are_cut() {
    let mut b = elf64_with_sections();
    let long = [b'a'; 0x50];
    b[0x100 + 1..0x100 + 1 + 0x50].copy_from_slice(&long);
    b[0x100 + 1 + 0x50] = 0;
    let sh = 0x300;
    put_u64(&mut b, sh + 0xC0 + 0x20, 0x60);
    put_u32(&mut b, sh + 0x100, 0);
    put_u32(&mut b, sh + 0x140, 0);
    put_u32(&mut b, sh + 0x180, 0);
    let h = ElfHeader::parse_header(&b).expect("a valid header");
    assert_eq!(h.section_table[1].name.len(), 0x40);
    assert!(h.section_table[1].name.chars().all(|c| c == 'a'));
}

#[test]
fn symbol_table_past_the_end_is_rejected() {
    let mut b = elf64_with_sections();
    put_u64(&mut b, 0x300 + 0x140 + 0x20, 0x1000);
    assert!(ElfHeader::parse_header(&b).is_none());
}

#[test]
fn parse_elf_keeps_bytes_from_program_headers_on() {
    let mut b = minimal_elf64(0x48);
    put_u64(&mut b, 0x20, 0x44);
    b[0x44..0x48].copy_from_slice(&[1, 2, 3, 4]);
    let elf = Elf::parse_elf(&b).expect("a valid file");
    assert_eq!(elf.text, vec![1, 2, 3, 4]);
    put_u64(&mut b, 0x20, 0x49);
    assert!(Elf::parse_elf(&b).is_none());
}

#[test]
fn bitness_bits() {
    assert_eq!(Bitness::Bit32.to_num_bits(), 32);
    assert_eq!(Bitness::Bit64.to_num_bits(), 64);
    assert_eq!(ABI::from_code(9), Some(ABI::FreeBSD));
    assert_eq!(ABI::from_code(5), None);
    assert_eq!(InstructionSet::from_code(0x101), Some(InstructionSet::WDC65C816));
}

#[test]
fn name_table_past_the_end_is_rejected() {
    let mut b = elf64_with_sections();
    put_u64(&mut b, 0x300 + 0xC0 + 0x18, 0x501);
    assert!(ElfHeader::parse_header(&b).is_none());
    let mut c = elf64_with_sections();
    put_u64(&mut c, 0x300 + 0xC0 + 0x18, 0x500);
    put_u32(&mut c, 0x300 + 0x40, 1);
    assert!(ElfHeader::parse_header(&c).is_none());
}

#[test]
fn name_at_the_very_end_is_empty() {
    let mut b = elf64_with_sections();
    put_u64(&mut b, 0x300 + 0xC0 + 0x18, 0x4FF);
    for at in [0x300, 0x340, 0x380, 0x3C0, 0x400, 0x440, 0x480] {
        put_u32(&mut b, at, 1);
    }
    let h = ElfHeader::parse_header(&b).expect("a valid header");
    assert!(h.section_table.iter().all(|s| s.name.is_empty()));
    assert!(h.get_symbols().is_empty());
}
