use hex_patch::disasm::InstructionIndex;
use hex_patch::document::{byte_class, hex_digit_value, u8_to_hex, ByteClass, Document};

#[test]
fn every_offset_maps_to_its_instruction() {
    let bytes = [0x90, 0x48, 0x89, 0xE5, 0xC3, 0x0F];
    let index = InstructionIndex::build(&bytes, 64);
    assert_eq!(index.offsets.len(), bytes.len());
    for (i, &k) in index.offsets.iter().enumerate() {
        let ins = &index.instructions[k];
        assert!(ins.address as usize <= i && i < ins.address as usize + ins.length);
    }
    assert_eq!(index.offsets, vec![0, 1, 1, 1, 2, 3]);
    assert_eq!(index.instructions[0].mnemonic, "nop");
    assert_eq!(index.instructions[1].mnemonic, "mov");
    assert_eq!(index.instructions[1].operands, "rbp,rsp");
    assert_eq!(index.instructions[2].mnemonic, "ret");
    assert_eq!(index.instructions[3].length, 1);
}

#[test]
fn empty_buffer_has_no_instructions() {
    let index = InstructionIndex::build(&[], 64);
    assert!(index.instructions.is_empty());
    assert!(index.offsets.is_empty());
}

#[test]
fn thirty_two_bit_decoding_differs() {
    let bytes = [0x48, 0x90];
    let index64 = InstructionIndex::build(&bytes, 64);
    let index32 = InstructionIndex::build(&bytes, 32);
    assert_eq!(index64.offsets, vec![0, 0]);
    assert_eq!(index32.offsets, vec![0, 1]);
    assert_eq!(index32.instructions[0].mnemonic, "dec");
}

#[test]
fn edit_reflows_instructions() {
    let mut doc = Document::new(vec![0x90, 0x90]);
    assert_eq!(doc.index.offsets, vec![0, 1]);
    doc.set_byte(0, 0xEB);
    assert_eq!(doc.data, vec![0xEB, 0x90]);
    assert_eq!(doc.index.offsets, vec![0, 0]);
    assert_eq!(doc.index.instructions.len(), 1);
    assert_eq!(doc.index.instructions[0].mnemonic, "jmp");
    assert_eq!(doc.index.instructions[0].length, 2);
    let fresh = InstructionIndex::build(&doc.data, 64);
    assert_eq!(fresh, doc.index);
}

#[test]
fn edit_nibbles_build_a_byte() {
    let mut doc = Document::new(vec![0x90, 0x90]);
    assert!(doc.edit_nibble(0, true, 'e'));
    assert_eq!(doc.data[0], 0xE0);
    assert!(doc.edit_nibble(0, false, 'B'));
    assert_eq!(doc.data[0], 0xEB);
    assert_eq!(doc.index.offsets, vec![0, 0]);
    assert!(!doc.edit_nibble(0, false, 'g'));
    assert_eq!(doc.data[0], 0xEB);
}

#[test]
fn dirty_flag_follows_changes() {
    let mut doc = Document::new(vec![0x12, 0x34]);
    assert!(!doc.dirty);
    assert!(doc.edit_nibble(0, true, '1'));
    assert!(!doc.dirty);
    doc.set_byte(1, 0x34);
    assert!(!doc.dirty);
    doc.set_byte(1, 0x35);
    assert!(doc.dirty);
    doc.set_byte(1, 0x34);
    assert!(doc.dirty);
    assert!(!doc.edit_nibble(0, true, 'x'));
    assert!(doc.dirty);
    doc.mark_saved();
    assert!(!doc.dirty);
    assert_eq!(doc.data, vec![0x12, 0x34]);
}

#[test]
fn instruction_at_offset() {
    let doc = Document::new(vec![0x90, 0x48, 0x89, 0xE5]);
    let ins = doc.get_instruction_at(2);
    assert_eq!(ins.address, 1);
    assert_eq!(ins.length, 3);
}

#[test]
fn hex_digits() {
    assert_eq!(hex_digit_value('0'), Some(0));
    assert_eq!(hex_digit_value('9'), Some(9));
    assert_eq!(hex_digit_value('a'), Some(10));
    assert_eq!(hex_digit_value('F'), Some(15));
    assert_eq!(hex_digit_value('G'), None);
    assert_eq!(hex_digit_value(' '), None);
    assert_eq!(u8_to_hex(0x00), ['0', '0']);
    assert_eq!(u8_to_hex(0xA7), ['A', '7']);
    assert_eq!(u8_to_hex(0xFF), ['F', 'F']);
}

#[test]
fn byte_classes() {
    assert_eq!(byte_class(0x00), ByteClass::Null);
    assert_eq!(byte_class(0x0A), ByteClass::EndOfLine);
    assert_eq!(byte_class(0x0D), ByteClass::EndOfLine);
    assert_eq!(byte_class(0x20), ByteClass::Whitespace);
    assert_eq!(byte_class(0x09), ByteClass::Whitespace);
    assert_eq!(byte_class(b'q'), ByteClass::Alphanumeric);
    assert_eq!(byte_class(b'7'), ByteClass::Alphanumeric);
    assert_eq!(byte_class(b'#'), ByteClass::Symbol);
    assert_eq!(byte_class(0x7F), ByteClass::Other);
    assert_eq!(byte_class(0xC3), ByteClass::Other);
}
