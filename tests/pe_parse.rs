use hex_patch::elf_codes::Bitness;
use hex_patch::header::Header;
use hex_patch::pe::PEHeader;

fn minimal_pe() -> Vec<u8> {
    let mut b = vec![0u8; 0x200];
    b[0] = 0x4D;
    b[1] = 0x5A;
    b[0x3C..0x40].copy_from_slice(&0x80u32.to_le_bytes());
    b[0x80..0x84].copy_from_slice(b"PE\0\0");
    b[0x84..0x86].copy_from_slice(&0x8664u16.to_le_bytes());
    b[0x86..0x88].copy_from_slice(&1u16.to_le_bytes());
    b[0x94..0x96].copy_from_slice(&0xF0u16.to_le_bytes());
    b[0x98..0x9A].copy_from_slice(&0x20Bu16.to_le_bytes());
    b[0xA8..0xAC].copy_from_slice(&0x1234u32.to_le_bytes());
    let s = 0x98 + 0xF0;
    b[s..s + 5].copy_from_slice(b".text");
    b[s + 8..s + 12].copy_from_slice(&0x180u32.to_le_bytes());
    b[s + 12..s + 16].copy_from_slice(&0x1000u32.to_le_bytes());
    b[s + 16..s + 20].copy_from_slice(&0x40u32.to_le_bytes());
    b[s + 20..s + 24].copy_from_slice(&0x1C0u32.to_le_bytes());
    b
}

#[test]
fn pe64_header_and_sections() {
    let b = minimal_pe();
    let h = PEHeader::parse_header(&b).expect("a valid PE header");
    assert_eq!(h.bitness, Bitness::Bit64);
    assert_eq!(h.machine, 0x8664);
    assert_eq!(h.address_of_entry_point, 0x1234);
    assert_eq!(h.section_table.len(), 1);
    assert_eq!(h.section_table[0].name, ".text");
    let header = Header::parse_header(&b);
    assert!(matches!(header, Header::PE(_)));
    assert_eq!(header.bitness(), 64);
    assert_eq!(header.entry_point(), 0x1234);
    let sections = header.get_sections();
    assert_eq!(sections.len(), 1);
    assert_eq!(sections[0].name, ".text");
    assert_eq!(sections[0].virtual_address, 0x1000);
    assert_eq!(sections[0].address, 0x1C0);
    assert_eq!(sections[0].size, 0x40);
}

#[test]
fn pe32_magic_gives_32_bits() {
    let mut b = minimal_pe();
    b[0x98..0x9A].copy_from_slice(&0x10Bu16.to_le_bytes());
    assert_eq!(Header::parse_header(&b).bitness(), 32);
}

#[test]
fn pe_with_bad_signature_or_magic_is_raw() {
    let mut b = minimal_pe();
    b[0x81] = b'X';
    assert!(PEHeader::parse_header(&b).is_none());
    assert!(matches!(Header::parse_header(&b), Header::Raw));
    let mut c = minimal_pe();
    c[0x98] = 0;
    assert!(matches!(Header::parse_header(&c), Header::Raw));
    let d = &minimal_pe()[..0x1B0 - 1];
    assert!(PEHeader::parse_header(d).is_none());
}

#[test]
fn raw_header_defaults() {
    let h = Header::parse_header(&[1, 2, 3]);
    assert!(matches!(h, Header::Raw));
    assert_eq!(h.bitness(), 64);
    assert_eq!(h.entry_point(), 0);
    assert!(h.get_sections().is_empty());
}
