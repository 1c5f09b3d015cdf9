use vstd::prelude::*;
use std::collections::HashMap;
use std::rc::Rc;
use crate::bytes::{Endianness, uint_at, read_uint, read_u16, read_u32, lemma_uint_at_bound, lemma_byte_bounds};
use crate::elf_codes::{Bitness, ABI, FileType, InstructionSet};
use vstd::string::StringExecFns;

verus! {

/// Section type of a section that occupies no bytes in the file.
pub const SHT_NOBITS: u32 = 8;

/// Longest name read from a string table.
pub const MAX_NAME_LEN: usize = 0x40;

/// One entry of an ELF section header table.
#[derive(PartialEq, Eq, Debug, Clone)]
pub struct Section {
    pub name: String,
    pub section_type: u32,
    pub flags: u64,
    pub address: u64,
    pub offset: u64,
    pub size: u64,
    pub link: u32,
    pub info: u32,
    pub address_alignment: u64,
    pub entry_size: u64,
}

/// A section header entry with its name as characters.
pub struct SectionView {
    pub name: Seq<char>,
    pub section_type: u32,
    pub flags: u64,
    pub address: u64,
    pub offset: u64,
    pub size: u64,
    pub link: u32,
    pub info: u32,
    pub address_alignment: u64,
    pub entry_size: u64,
}

impl View for Section {
    type V = SectionView;

    open spec fn view(&self) -> SectionView {
        SectionView {
            name: self.name@,
            section_type: self.section_type,
            flags: self.flags,
            address: self.address,
            offset: self.offset,
            size: self.size,
            link: self.link,
            info: self.info,
            address_alignment: self.address_alignment,
            entry_size: self.entry_size,
        }
    }
}

/// `a32` in the 32-bit layout, `a64` in the 64-bit one.
pub open spec fn pick(bits: Bitness, a32: int, a64: int) -> int {
    match bits {
        Bitness::Bit32 => a32,
        Bitness::Bit64 => a64,
    }
}

/// Size in bytes of an address-sized field.
pub open spec fn word_len(bits: Bitness) -> int {
    pick(bits, 4, 8)
}

/// Smallest section header entry that holds every field.
pub open spec fn min_section_entry_size(bits: Bitness) -> int {
    pick(bits, 0x28, 0x40)
}

/// The NUL-terminated name at `start`, read no further than `end` and cut
/// after `n` characters; each byte stands for the character of the same code.
pub open spec fn c_name(b: Seq<u8>, start: int, end: int, n: nat) -> Seq<char>
    decreases n,
{
    if n == 0 || start < 0 || start >= end || start >= b.len() || b[start] == 0 {
        Seq::empty()
    } else {
        seq![b[start] as char] + c_name(b, start + 1, end, (n - 1) as nat)
    }
}

/// Relies on String::push: appends one character at the end.
#[verifier::external_body]
fn push_char(s: &mut String, c: char)
    ensures
        final(s)@ == old(s)@.push(c),
{
    s.push(c)
}

/// Reads the name at `start` of a string table that ends at `end`.
pub(crate) fn read_name(b: &[u8], start: usize, end: usize) -> (r: String)
    requires
        end <= b@.len(),
    ensures
        r@ == c_name(b@, start as int, end as int, MAX_NAME_LEN as nat),
{
    let mut r = String::new();
    let mut i: usize = start;
    let mut k: usize = 0;
    while k < MAX_NAME_LEN && i < end && b[i] != 0
        invariant
            end <= b@.len(),
            k <= MAX_NAME_LEN,
            i == start + k,
            c_name(b@, start as int, end as int, MAX_NAME_LEN as nat) == r@ + c_name(
                b@,
                i as int,
                end as int,
                (MAX_NAME_LEN - k) as nat,
            ),
        decreases MAX_NAME_LEN - k,
    {
        let c = b[i] as char;
        proof {
            assert(r@ + c_name(b@, i as int, end as int, (MAX_NAME_LEN - k) as nat) == r@.push(c)
                + c_name(b@, i + 1, end as int, (MAX_NAME_LEN - k - 1) as nat));
        }
        push_char(&mut r, c);
        i = i + 1;
        k = k + 1;
    }
    r
}

/// The section header entry at `at`, with its name read from the string
/// table that starts at `strtab`.
pub open spec fn section_at(b: Seq<u8>, bits: Bitness, e: Endianness, at: int, strtab: int) -> SectionView {
    let w = word_len(bits);
    SectionView {
        name: c_name(b, strtab + uint_at(b, at, 4, e), b.len() as int, MAX_NAME_LEN as nat),
        section_type: uint_at(b, at + 4, 4, e) as u32,
        flags: uint_at(b, at + 8, w, e) as u64,
        address: uint_at(b, at + pick(bits, 0x0C, 0x10), w, e) as u64,
        offset: uint_at(b, at + pick(bits, 0x10, 0x18), w, e) as u64,
        size: uint_at(b, at + pick(bits, 0x14, 0x20), w, e) as u64,
        link: uint_at(b, at + pick(bits, 0x18, 0x28), 4, e) as u32,
        info: uint_at(b, at + pick(bits, 0x1C, 0x2C), 4, e) as u32,
        address_alignment: uint_at(b, at + pick(bits, 0x20, 0x30), w, e) as u64,
        entry_size: uint_at(b, at + pick(bits, 0x24, 0x38), w, e) as u64,
    }
}

/// Whether a section type marks a section with no bytes in the file.
pub open spec fn has_no_file_bytes(section_type: u32) -> bool {
    section_type == SHT_NOBITS
}

/// Start of the `i`-th entry of a table.
pub open spec fn entry_start(table: int, entry_size: int, i: int) -> int {
    table + i * entry_size
}

/// Whether the name of the `i`-th section header starts inside the buffer.
pub open spec fn section_name_in_bounds(
    b: Seq<u8>,
    e: Endianness,
    table: int,
    entry_size: int,
    strtab: int,
    i: int,
) -> bool {
    strtab + uint_at(b, entry_start(table, entry_size, i), 4, e) <= b.len()
}

/// The first `n` section header entries, without those that have no bytes in
/// the file.
pub open spec fn kept_sections(
    b: Seq<u8>,
    bits: Bitness,
    e: Endianness,
    table: int,
    entry_size: int,
    strtab: int,
    n: nat,
) -> Seq<SectionView>
    decreases n,
{
    if n == 0 {
        Seq::empty()
    } else {
        let prev = kept_sections(b, bits, e, table, entry_size, strtab, (n - 1) as nat);
        let s = section_at(b, bits, e, entry_start(table, entry_size, n - 1), strtab);
        if has_no_file_bytes(s.section_type) {
            prev
        } else {
            prev.push(s)
        }
    }
}

/// Reads an address-sized field at `off`.
fn read_word(b: &[u8], off: usize, bits: Bitness, e: Endianness) -> (r: u64)
    requires
        off + word_len(bits) <= b@.len(),
    ensures
        r == uint_at(b@, off as int, word_len(bits), e),
{
    match bits {
        Bitness::Bit32 => read_uint(b, off, 4, e),
        Bitness::Bit64 => read_uint(b, off, 8, e),
    }
}

proof fn lemma_word_fits(b: Seq<u8>, off: int, bits: Bitness, e: Endianness)
    requires
        0 <= off,
        off + word_len(bits) <= b.len(),
    ensures
        uint_at(b, off, word_len(bits), e) < 0x1_0000_0000_0000_0000,
        uint_at(b, off, 4, e) < 0x1_0000_0000,
{
    lemma_uint_at_bound(b, off, word_len(bits), e);
    lemma_uint_at_bound(b, off, 4, e);
    lemma_byte_bounds();
}

/// Reads the section header entry at `at`; `None` when its name would start
/// past the end of the buffer.
fn parse_section(b: &[u8], at: usize, strtab: usize, bits: Bitness, e: Endianness) -> (r: Option<
    Section,
>)
    requires
        at + min_section_entry_size(bits) <= b@.len(),
        strtab <= b@.len(),
    ensures
        match r {
            Some(s) => s@ == section_at(b@, bits, e, at as int, strtab as int)
                && strtab + uint_at(b@, at as int, 4, e) <= b@.len(),
            None => strtab + uint_at(b@, at as int, 4, e) > b@.len(),
        },
{
    let name_offset = read_u32(b, at, e);
    if name_offset as usize > b.len() - strtab {
        return None;
    }
    let name = read_name(b, strtab + name_offset as usize, b.len());
    let section_type = read_u32(b, at + 4, e);
    let flags = read_word(b, at + 8, bits, e);
    let (a, o, z, l, n, g, y) = match bits {
        Bitness::Bit32 => (0x0Cusize, 0x10usize, 0x14usize, 0x18usize, 0x1Cusize, 0x20usize, 0x24usize),
        Bitness::Bit64 => (0x10usize, 0x18usize, 0x20usize, 0x28usize, 0x2Cusize, 0x30usize, 0x38usize),
    };
    let address = read_word(b, at + a, bits, e);
    let offset = read_word(b, at + o, bits, e);
    let size = read_word(b, at + z, bits, e);
    let link = read_u32(b, at + l, e);
    let info = read_u32(b, at + n, e);
    let address_alignment = read_word(b, at + g, bits, e);
    let entry_size = read_word(b, at + y, bits, e);
    proof {
        lemma_word_fits(b@, at + 8, bits, e);
        lemma_word_fits(b@, at + a, bits, e);
        lemma_word_fits(b@, at + o, bits, e);
        lemma_word_fits(b@, at + z, bits, e);
        lemma_word_fits(b@, at + g, bits, e);
        lemma_word_fits(b@, at + y, bits, e);
    }
    Some(
        Section {
            name,
            section_type,
            flags,
            address,
            offset,
            size,
            link,
            info,
            address_alignment,
            entry_size,
        },
    )
}

/// Reads the `count` entries of the section header table at `table`, keeping
/// those with bytes in the file; `None` when a name starts past the end.
fn parse_sections(
    b: &[u8],
    table: usize,
    entry_size: usize,
    count: usize,
    strtab: usize,
    bits: Bitness,
    e: Endianness,
) -> (r: Option<Vec<Section>>)
    requires
        table + count * entry_size <= b@.len(),
        count > 0 ==> entry_size >= min_section_entry_size(bits),
        strtab <= b@.len(),
    ensures
        r is Some <==> forall|i: int|
            0 <= i < count ==> #[trigger] section_name_in_bounds(
                b@,
                e,
                table as int,
                entry_size as int,
                strtab as int,
                i,
            ),
        r matches Some(v) ==> v@.map_values(|s: Section| s@) == kept_sections(
            b@,
            bits,
            e,
            table as int,
            entry_size as int,
            strtab as int,
            count as nat,
        ),
{
    let len = b.len();
    let mut sections: Vec<Section> = Vec::new();
    let mut i: usize = 0;
    let mut at: usize = table;
    while i < count
        invariant
            len == b@.len(),
            table + count * entry_size <= b@.len(),
            count > 0 ==> entry_size >= min_section_entry_size(bits),
            strtab <= b@.len(),
            i <= count,
            at == entry_start(table as int, entry_size as int, i as int),
            forall|j: int|
                0 <= j < i ==> #[trigger] section_name_in_bounds(
                    b@,
                    e,
                    table as int,
                    entry_size as int,
                    strtab as int,
                    j,
                ),
            sections@.map_values(|s: Section| s@) == kept_sections(
                b@,
                bits,
                e,
                table as int,
                entry_size as int,
                strtab as int,
                i as nat,
            ),
        decreases count - i,
    {
        proof {
            assert(at + entry_size <= table + count * entry_size) by (nonlinear_arith)
                requires
                    at == table + i * entry_size,
                    i < count,
            ;
        }
        match parse_section(b, at, strtab, bits, e) {
            None => {
                assert(!section_name_in_bounds(
                    b@,
                    e,
                    table as int,
                    entry_size as int,
                    strtab as int,
                    i as int,
                ));
                return None;
            },
            Some(s) => {
                let ghost old_sections = sections@;
                if s.section_type != SHT_NOBITS {
                    sections.push(s);
                    assert(sections@.map_values(|s: Section| s@) =~= old_sections.map_values(
                        |s: Section| s@,
                    ).push(s@));
                }
            },
        }
        proof {
            assert((i + 1) * entry_size == i * entry_size + entry_size) by (nonlinear_arith);
        }
        i = i + 1;
        at = at + entry_size;
    }
    Some(sections)
}

/// Size of one symbol table entry.
pub open spec fn symbol_entry_size(bits: Bitness) -> int {
    pick(bits, 16, 24)
}

/// Whether the bytes of a section lie inside the buffer.
pub open spec fn section_in_bounds(b: Seq<u8>, s: SectionView) -> bool {
    s.offset + s.size <= b.len()
}

/// The (address, name) pairs of the first `n` entries of symbol table `tab`,
/// named through string table `strs`; an entry whose name starts past the
/// end of `strs` is left out.
pub open spec fn symbol_entries(
    b: Seq<u8>,
    bits: Bitness,
    e: Endianness,
    tab: SectionView,
    strs: SectionView,
    n: nat,
) -> Seq<(u64, Seq<char>)>
    decreases n,
{
    if n == 0 {
        Seq::empty()
    } else {
        let prev = symbol_entries(b, bits, e, tab, strs, (n - 1) as nat);
        let at = entry_start(tab.offset as int, symbol_entry_size(bits), n - 1);
        let name_offset = uint_at(b, at, 4, e);
        if name_offset > strs.size {
            prev
        } else {
            let value = uint_at(b, at + pick(bits, 4, 8), word_len(bits), e) as u64;
            let name = c_name(
                b,
                strs.offset + name_offset,
                strs.offset + strs.size,
                MAX_NAME_LEN as nat,
            );
            prev.push((value, name))
        }
    }
}

/// All entries of symbol table `tab`.
pub open spec fn all_symbol_entries(
    b: Seq<u8>,
    bits: Bitness,
    e: Endianness,
    tab: SectionView,
    strs: SectionView,
) -> Seq<(u64, Seq<char>)> {
    symbol_entries(b, bits, e, tab, strs, (tab.size as int / symbol_entry_size(bits)) as nat)
}

/// The pairs with their names as characters.
pub open spec fn pairs_view(v: Seq<(u64, String)>) -> Seq<(u64, Seq<char>)> {
    v.map_values(|p: (u64, String)| (p.0, p.1@))
}

/// Whether `b` starts with the ELF magic number.
pub open spec fn is_elf_magic(b: Seq<u8>) -> bool {
    b.len() >= 4 && b[0] == 0x7F && b[1] == 0x45 && b[2] == 0x4C && b[3] == 0x46
}

/// The byte order that identification byte `c` announces.
pub open spec fn endianness_of_code(c: u8) -> Option<Endianness> {
    if c == 1 {
        Some(Endianness::Little)
    } else if c == 2 {
        Some(Endianness::Big)
    } else {
        None
    }
}

/// Word size of an ELF buffer (meaningful once its identification is valid).
pub open spec fn elf_bits(b: Seq<u8>) -> Bitness {
    if b[4] == 1 {
        Bitness::Bit32
    } else {
        Bitness::Bit64
    }
}

/// Byte order of an ELF buffer (meaningful once its identification is valid).
pub open spec fn elf_endianness(b: Seq<u8>) -> Endianness {
    if b[5] == 2 {
        Endianness::Big
    } else {
        Endianness::Little
    }
}

/// The header field at `off32` or `off64`, `n` bytes long.
pub open spec fn elf_field(b: Seq<u8>, off32: int, off64: int, n: int) -> nat {
    uint_at(b, pick(elf_bits(b), off32, off64), n, elf_endianness(b))
}

/// An address-sized header field.
pub open spec fn elf_word(b: Seq<u8>, off32: int, off64: int) -> nat {
    elf_field(b, off32, off64, word_len(elf_bits(b)))
}

pub open spec fn elf_section_table(b: Seq<u8>) -> nat {
    elf_word(b, 0x20, 0x28)
}

pub open spec fn elf_section_entry_size(b: Seq<u8>) -> nat {
    elf_field(b, 0x2E, 0x3A, 2)
}

pub open spec fn elf_section_count(b: Seq<u8>) -> nat {
    elf_field(b, 0x30, 0x3C, 2)
}

pub open spec fn elf_string_table_index(b: Seq<u8>) -> nat {
    elf_field(b, 0x32, 0x3E, 2)
}

/// Where the header entry of the section name string table starts.
pub open spec fn elf_string_table_entry(b: Seq<u8>) -> int {
    elf_section_table(b) + elf_string_table_index(b) * elf_section_entry_size(b) as int
}

/// Where the offset field of that entry starts.
pub open spec fn elf_string_table_field(b: Seq<u8>) -> int {
    elf_string_table_entry(b) + pick(elf_bits(b), 0x10, 0x18)
}

/// File offset of the section name string table.
pub open spec fn elf_string_table(b: Seq<u8>) -> nat {
    uint_at(b, elf_string_table_field(b), word_len(elf_bits(b)), elf_endianness(b))
}

/// The identification and the fixed header fields are valid.
pub open spec fn elf_ident_valid(b: Seq<u8>) -> bool {
    &&& is_elf_magic(b)
    &&& b.len() >= 0x34
    &&& Bitness::of_code(b[4]) is Some
    &&& (b[4] == 2 ==> b.len() >= 0x40)
    &&& endianness_of_code(b[5]) is Some
    &&& b[6] == 1
    &&& exists|a: ABI| a.code() == b[7]
    &&& FileType::of_code(uint_at(b, 0x10, 2, elf_endianness(b)) as u16) is Some
    &&& exists|m: InstructionSet| m.code() == uint_at(b, 0x12, 2, elf_endianness(b))
    &&& b[0x14] == 1
}

/// The section header table and the string table entry lie inside the buffer.
pub open spec fn elf_section_table_valid(b: Seq<u8>) -> bool {
    &&& elf_section_table(b) + elf_section_count(b) * elf_section_entry_size(b) <= b.len()
    &&& elf_section_count(b) > 0 ==> elf_section_entry_size(b) >= min_section_entry_size(
        elf_bits(b),
    )
    &&& elf_string_table_field(b) + word_len(elf_bits(b)) <= b.len()
    &&& elf_string_table(b) <= b.len()
    &&& forall|i: int|
        0 <= i < elf_section_count(b) ==> #[trigger] section_name_in_bounds(
            b,
            elf_endianness(b),
            elf_section_table(b) as int,
            elf_section_entry_size(b) as int,
            elf_string_table(b) as int,
            i,
        )
}

/// The sections of an ELF buffer that have bytes in the file.
pub open spec fn elf_sections(b: Seq<u8>) -> Seq<SectionView> {
    kept_sections(
        b,
        elf_bits(b),
        elf_endianness(b),
        elf_section_table(b) as int,
        elf_section_entry_size(b) as int,
        elf_string_table(b) as int,
        elf_section_count(b),
    )
}

/// The last section called `name`.
pub open spec fn last_named(s: Seq<SectionView>, name: Seq<char>) -> Option<SectionView>
    decreases s.len(),
{
    if s.len() == 0 {
        None
    } else if s.last().name == name {
        Some(s.last())
    } else {
        last_named(s.drop_last(), name)
    }
}

/// Both tables exist and lie inside the buffer, or one of them is missing.
pub open spec fn symbol_tables_valid(
    b: Seq<u8>,
    tab: Option<SectionView>,
    strs: Option<SectionView>,
) -> bool {
    tab is Some && strs is Some ==> section_in_bounds(b, tab->0) && section_in_bounds(b, strs->0)
}

/// The entries of `tab`, or none when a table is missing.
pub open spec fn entries_of(
    b: Seq<u8>,
    tab: Option<SectionView>,
    strs: Option<SectionView>,
) -> Seq<(u64, Seq<char>)> {
    if tab is Some && strs is Some {
        all_symbol_entries(b, elf_bits(b), elf_endianness(b), tab->0, strs->0)
    } else {
        Seq::empty()
    }
}

pub open spec fn elf_dynamic_symbols(b: Seq<u8>) -> Option<SectionView> {
    last_named(elf_sections(b), ".dynsym"@)
}

pub open spec fn elf_static_symbols(b: Seq<u8>) -> Option<SectionView> {
    last_named(elf_sections(b), ".symtab"@)
}

pub open spec fn elf_symbol_names(b: Seq<u8>) -> Option<SectionView> {
    last_named(elf_sections(b), ".strtab"@)
}

/// Every ELF rule holds of `b`: exactly the buffers that parse.
pub open spec fn elf_valid(b: Seq<u8>) -> bool {
    &&& elf_ident_valid(b)
    &&& elf_section_table_valid(b)
    &&& symbol_tables_valid(b, elf_dynamic_symbols(b), elf_symbol_names(b))
    &&& symbol_tables_valid(b, elf_static_symbols(b), elf_symbol_names(b))
}

/// `m` with the pairs of `s` inserted in order, later ones replacing earlier.
pub open spec fn insert_all(m: Map<u64, Seq<char>>, s: Seq<(u64, Seq<char>)>) -> Map<
    u64,
    Seq<char>,
>
    decreases s.len(),
{
    if s.len() == 0 {
        m
    } else {
        insert_all(m, s.drop_last()).insert(s.last().0, s.last().1)
    }
}

/// The symbol table of an ELF buffer: dynamic symbols first, static ones
/// replacing them at equal addresses.
pub open spec fn elf_symbols(b: Seq<u8>) -> Map<u64, Seq<char>> {
    let dynamic = entries_of(b, elf_dynamic_symbols(b), elf_symbol_names(b));
    let static_ = entries_of(b, elf_static_symbols(b), elf_symbol_names(b));
    insert_all(insert_all(Map::empty(), dynamic), static_)
}

/// A map of names as characters.
pub open spec fn names_view(m: Map<u64, String>) -> Map<u64, Seq<char>> {
    m.map_values(|s: String| s@)
}

/// Inserts the pairs of `entries` into `map` in order.
fn insert_symbols(map: &mut HashMap<u64, String>, entries: &Vec<(u64, String)>)
    ensures
        names_view(final(map)@) == insert_all(names_view(old(map)@), pairs_view(entries@)),
{
    let mut i: usize = 0;
    while i < entries.len()
        invariant
            i <= entries@.len(),
            names_view(map@) == insert_all(
                names_view(old(map)@),
                pairs_view(entries@).subrange(0, i as int),
            ),
        decreases entries@.len() - i,
    {
        let ghost before = map@;
        let address = entries[i].0;
        let name = entries[i].1.clone();
        map.insert(address, name);
        proof {
            let s = pairs_view(entries@).subrange(0, i + 1);
            assert(s.drop_last() =~= pairs_view(entries@).subrange(0, i as int));
            assert(names_view(map@) =~= names_view(before).insert(address, name@));
        }
        i = i + 1;
    }
    assert(pairs_view(entries@).subrange(0, i as int) =~= pairs_view(entries@));
}

/// The index of the last section called `name`.
fn find_last(sections: &Vec<Section>, name: &String) -> (r: Option<usize>)
    ensures
        match r {
            Some(i) => i < sections@.len() && last_named(
                sections@.map_values(|s: Section| s@),
                name@,
            ) == Some(sections@[i as int]@),
            None => last_named(sections@.map_values(|s: Section| s@), name@) is None,
        },
{
    let ghost v = sections@.map_values(|s: Section| s@);
    let mut i: usize = sections.len();
    assert(v.subrange(0, i as int) =~= v);
    while i > 0
        invariant
            i <= sections@.len(),
            v == sections@.map_values(|s: Section| s@),
            last_named(v, name@) == last_named(v.subrange(0, i as int), name@),
        decreases i,
    {
        assert(v.subrange(0, i as int).drop_last() =~= v.subrange(0, i - 1));
        if sections[i - 1].name == *name {
            return Some(i - 1);
        }
        i = i - 1;
    }
    None
}

/// Whether every name of `inverse` is the name of the symbol at the address
/// that it maps to.
pub open spec fn inverts(inverse: Map<String, u64>, symbols: Map<u64, String>) -> bool {
    forall|n: String|
        #[trigger] inverse.contains_key(n) ==> symbols.contains_key(inverse[n])
            && symbols[inverse[n]]@ == n@
}

/// Whether some name of `inverse` reads as `name`.
pub open spec fn has_name(inverse: Map<String, u64>, name: Seq<char>) -> bool {
    exists|n: String| #[trigger] inverse.contains_key(n) && n@ == name
}

/// Whether every name of `symbols` is a name of `inverse`.
pub open spec fn names_all(inverse: Map<String, u64>, symbols: Map<u64, String>) -> bool {
    forall|k: u64| #[trigger] symbols.contains_key(k) ==> has_name(inverse, symbols[k]@)
}

/// A key of `insert_all(m, s)` comes with its value from the last pair of
/// `s` that has it, or else from `m`.
proof fn lemma_insert_all_source(m: Map<u64, Seq<char>>, s: Seq<(u64, Seq<char>)>, k: u64)
    requires
        insert_all(m, s).contains_key(k),
    ensures
        (m.contains_key(k) && insert_all(m, s)[k] == m[k]) || exists|j: int|
            0 <= j < s.len() && (#[trigger] s[j]).0 == k && insert_all(m, s)[k] == s[j].1,
    decreases s.len(),
{
    if s.len() > 0 {
        let last = s.last();
        if last.0 != k {
            lemma_insert_all_source(m, s.drop_last(), k);
            if !(m.contains_key(k) && insert_all(m, s)[k] == m[k]) {
                let j = choose|j: int|
                    0 <= j < s.drop_last().len() && (#[trigger] s.drop_last()[j]).0 == k
                        && insert_all(m, s.drop_last())[k] == s.drop_last()[j].1;
                assert(s[j] == s.drop_last()[j]);
            }
        } else {
            assert(s[s.len() - 1] == last);
        }
    }
}

/// Adds to `inverse` each pair of `entries` whose name is the one that
/// `symbols` holds at its address.
fn insert_inverse(
    inverse: &mut HashMap<String, u64>,
    symbols: &HashMap<u64, String>,
    entries: &Vec<(u64, String)>,
)
    requires
        vstd::std_specs::hash::obeys_key_model::<String>() ==> inverts(old(inverse)@, symbols@),
    ensures
        vstd::std_specs::hash::obeys_key_model::<String>() ==> {
            &&& inverts(final(inverse)@, symbols@)
            &&& forall|n: String|
                #[trigger] old(inverse)@.contains_key(n) ==> final(inverse)@.contains_key(n)
            &&& forall|j: int|
                0 <= j < entries@.len() && symbols@.contains_key(#[trigger] entries@[j].0)
                    && symbols@[entries@[j].0]@ == entries@[j].1@ ==> has_name(
                    final(inverse)@,
                    entries@[j].1@,
                )
        },
{
    broadcast use vstd::std_specs::hash::group_hash_axioms;

    let mut i: usize = 0;
    while i < entries.len()
        invariant
            i <= entries@.len(),
            vstd::std_specs::hash::obeys_key_model::<String>() ==> {
                &&& inverts(inverse@, symbols@)
                &&& forall|n: String|
                    #[trigger] old(inverse)@.contains_key(n) ==> inverse@.contains_key(n)
                &&& forall|j: int|
                    0 <= j < i && symbols@.contains_key(#[trigger] entries@[j].0)
                        && symbols@[entries@[j].0]@ == entries@[j].1@ ==> has_name(
                        inverse@,
                        entries@[j].1@,
                    )
            },
        decreases entries@.len() - i,
    {
        let address = entries[i].0;
        let ghost before = inverse@;
        match symbols.get(&address) {
            Some(name) => {
                if *name == entries[i].1 {
                    let key = entries[i].1.clone();
                    inverse.insert(key, address);
                    proof {
                        if vstd::std_specs::hash::obeys_key_model::<String>() {
                            assert(inverse@.contains_key(key));
                        }
                    }
                }
            },
            None => {},
        }
        proof {
            if vstd::std_specs::hash::obeys_key_model::<String>() {
                assert forall|j: int|
                    0 <= j < i + 1 && symbols@.contains_key(#[trigger] entries@[j].0)
                        && symbols@[entries@[j].0]@ == entries@[j].1@ implies has_name(
                    inverse@,
                    entries@[j].1@,
                ) by {
                    if j < i {
                        let n = choose|n: String|
                            #[trigger] before.contains_key(n) && n@ == entries@[j].1@;
                        assert(inverse@.contains_key(n));
                    }
                }
            }
        }
        i = i + 1;
    }
}

/// The decoded header of an ELF file.
#[derive(PartialEq, Eq, Debug, Clone)]
pub struct ElfHeader {
    pub bitness: Bitness,
    pub endianness: Endianness,
    pub abi: ABI,
    pub dynamic_linker_version: u8,
    pub file_type: FileType,
    pub instruction_set: InstructionSet,
    pub elf_version: u8,
    pub entry_point: u64,
    pub program_header_offset: u64,
    pub section_header_table: u64,
    pub flags: u32,
    pub header_size: u16,
    pub program_header_entry_size: u16,
    pub program_header_entry_count: u16,
    pub section_header_entry_size: u16,
    pub section_header_entry_count: u16,
    pub section_header_string_table_index: u16,
    pub section_table: Vec<Section>,
    pub symbol_table: Rc<HashMap<u64, String>>,
    pub inverse_symbol_table: HashMap<String, u64>,
}

/// The byte order that identification byte `c` announces.
fn endianness_from_code(c: u8) -> (r: Option<Endianness>)
    ensures
        r == endianness_of_code(c),
{
    match c {
        1 => Some(Endianness::Little),
        2 => Some(Endianness::Big),
        _ => None,
    }
}

impl ElfHeader {
    /// Every field of `self` is the one that `b` holds.
    pub open spec fn describes(&self, b: Seq<u8>) -> bool {
        &&& self.bitness == elf_bits(b)
        &&& self.endianness == elf_endianness(b)
        &&& self.abi.code() == b[7]
        &&& self.dynamic_linker_version == b[8]
        &&& FileType::of_code(uint_at(b, 0x10, 2, elf_endianness(b)) as u16) == Some(
            self.file_type,
        )
        &&& self.instruction_set.code() == uint_at(b, 0x12, 2, elf_endianness(b))
        &&& self.elf_version == 1
        &&& self.entry_point == elf_word(b, 0x18, 0x18)
        &&& self.program_header_offset == elf_word(b, 0x1C, 0x20)
        &&& self.section_header_table == elf_section_table(b)
        &&& self.flags == elf_field(b, 0x24, 0x30, 4)
        &&& self.header_size == elf_field(b, 0x28, 0x34, 2)
        &&& self.program_header_entry_size == elf_field(b, 0x2A, 0x36, 2)
        &&& self.program_header_entry_count == elf_field(b, 0x2C, 0x38, 2)
        &&& self.section_header_entry_size == elf_section_entry_size(b)
        &&& self.section_header_entry_count == elf_section_count(b)
        &&& self.section_header_string_table_index == elf_string_table_index(b)
        &&& self.section_table@.map_values(|s: Section| s@) == elf_sections(b)
        &&& names_view((*self.symbol_table)@) == elf_symbols(b)
        &&& vstd::std_specs::hash::obeys_key_model::<String>() ==> inverts(
            self.inverse_symbol_table@,
            (*self.symbol_table)@,
        )
        &&& vstd::std_specs::hash::obeys_key_model::<String>() ==> names_all(
            self.inverse_symbol_table@,
            (*self.symbol_table)@,
        )
    }

    /// Reads the symbol table `symbol_table` with names from `string_table`;
    /// `None` when either table reaches past the end of the buffer.
    fn parse_symbols(
        symbol_table: &Section,
        string_table: &Section,
        bytes: &[u8],
        bitness: Bitness,
        endianness: Endianness,
    ) -> (r: Option<Vec<(u64, String)>>)
        ensures
            r is Some <==> section_in_bounds(bytes@, symbol_table@) && section_in_bounds(
                bytes@,
                string_table@,
            ),
            r matches Some(v) ==> pairs_view(v@) == all_symbol_entries(
                bytes@,
                bitness,
                endianness,
                symbol_table@,
                string_table@,
            ),
    {
        let blen = bytes.len();
        let len = blen as u64;
        if symbol_table.offset > len || symbol_table.size > len - symbol_table.offset {
            return None;
        }
        if string_table.offset > len || string_table.size > len - string_table.offset {
            return None;
        }
        let entry_size: usize = match bitness {
            Bitness::Bit32 => 16,
            Bitness::Bit64 => 24,
        };
        let count = symbol_table.size as usize / entry_size;
        let table = symbol_table.offset as usize;
        let strs = string_table.offset as usize;
        let strs_size = string_table.size as usize;
        let mut entries: Vec<(u64, String)> = Vec::new();
        let mut i: usize = 0;
        let mut at: usize = table;
        proof {
            assert(count * entry_size <= symbol_table.size) by (nonlinear_arith)
                requires
                    count == symbol_table.size as int / entry_size as int,
                    entry_size > 0,
            ;
        }
        while i < count
            invariant
                blen == bytes@.len(),
                entry_size == symbol_entry_size(bitness),
                count == symbol_table.size as int / symbol_entry_size(bitness),
                table == symbol_table.offset,
                strs == string_table.offset,
                strs_size == string_table.size,
                table + count * entry_size <= bytes@.len(),
                strs + strs_size <= bytes@.len(),
                i <= count,
                at == entry_start(table as int, entry_size as int, i as int),
                pairs_view(entries@) == symbol_entries(
                    bytes@,
                    bitness,
                    endianness,
                    symbol_table@,
                    string_table@,
                    i as nat,
                ),
            decreases count - i,
        {
            proof {
                assert(at + entry_size <= table + count * entry_size) by (nonlinear_arith)
                    requires
                        at == table + i * entry_size,
                        i < count,
                ;
            }
            let name_offset = read_u32(bytes, at, endianness);
            let ghost old_entries = entries@;
            if name_offset as usize <= strs_size {
                let value = match bitness {
                    Bitness::Bit32 => read_uint(bytes, at + 4, 4, endianness),
                    Bitness::Bit64 => read_uint(bytes, at + 8, 8, endianness),
                };
                let name = read_name(bytes, strs + name_offset as usize, strs + strs_size);
                entries.push((value, name));
                assert(pairs_view(entries@) =~= pairs_view(old_entries).push((value, name@)));
            }
            proof {
                assert((i + 1) * entry_size == i * entry_size + entry_size) by (nonlinear_arith);
            }
            i = i + 1;
            at = at + entry_size;
        }
        Some(entries)
    }

    fn is_elf(bytes: &[u8]) -> (r: bool)
        ensures
            r == is_elf_magic(bytes@),
    {
        bytes.len() >= 4 && bytes[0] == 0x7F && bytes[1] == 0x45 && bytes[2] == 0x4C && bytes[3]
            == 0x46
    }

    /// Parses the ELF header at the start of `bytes`, with its section table
    /// and symbol table; `None` when `bytes` breaks any rule of the format.
    pub fn parse_header(bytes: &[u8]) -> (r: Option<ElfHeader>)
        ensures
            r is Some <==> elf_valid(bytes@),
            r matches Some(h) ==> h.describes(bytes@),
    {
        let b = bytes;
        let (bitness, endianness, abi, file_type, instruction_set) = match parse_ident(b) {
            Some(x) => x,
            None => return None,
        };
        let e = endianness;
        let (ph, sh, fl, hs, pes, pec) = match bitness {
            Bitness::Bit64 => (0x20usize, 0x28usize, 0x30usize, 0x34usize, 0x36usize, 0x38usize),
            Bitness::Bit32 => (0x1Cusize, 0x20usize, 0x24usize, 0x28usize, 0x2Ausize, 0x2Cusize),
        };
        let entry_point = read_word(b, 0x18, bitness, e);
        let program_header_offset = read_word(b, ph, bitness, e);
        let flags = read_u32(b, fl, e);
        let header_size = read_u16(b, hs, e);
        let program_header_entry_size = read_u16(b, pes, e);
        let program_header_entry_count = read_u16(b, pec, e);
        proof {
            lemma_word_fits(b@, 0x18, bitness, e);
            lemma_word_fits(b@, ph as int, bitness, e);
        }
        let (table, entry_size, count, string_table_index, string_table) = match section_layout(
            b,
            bitness,
            e,
        ) {
            Some(x) => x,
            None => return None,
        };
        let len = b.len();
        assert(table <= len);
        let sections = match parse_sections(
            b,
            table as usize,
            entry_size as usize,
            count as usize,
            string_table,
            bitness,
            e,
        ) {
            Some(v) => v,
            None => return None,
        };
        let (symbols, inverse_symbol_table) = match parse_symbol_tables(&sections, b) {
            Some(x) => x,
            None => return None,
        };
        Some(
            ElfHeader {
                bitness,
                endianness,
                abi,
                dynamic_linker_version: b[8],
                file_type,
                instruction_set,
                elf_version: 1,
                entry_point,
                program_header_offset,
                section_header_table: table,
                flags,
                header_size,
                program_header_entry_size,
                program_header_entry_count,
                section_header_entry_size: entry_size,
                section_header_entry_count: count,
                section_header_string_table_index: string_table_index,
                section_table: sections,
                symbol_table: Rc::new(symbols),
                inverse_symbol_table,
            },
        )
    }
}

impl ElfHeader {
    pub fn bitness(&self) -> (r: u32)
        ensures
            r == self.bitness.num_bits(),
    {
        self.bitness.to_num_bits()
    }

    /// The address-to-name map, shared with this header.
    pub fn get_symbols(&self) -> (r: Rc<HashMap<u64, String>>)
        ensures
            r == self.symbol_table,
    {
        share_symbols(&self.symbol_table)
    }
}

/// Relies on Rc::clone: a second handle to the same map.
#[verifier::external_body]
fn share_symbols(rc: &Rc<HashMap<u64, String>>) -> (r: Rc<HashMap<u64, String>>)
    ensures
        r == *rc,
{
    Rc::clone(rc)
}

/// An ELF file: its header and the bytes from its program header table on.
pub struct Elf {
    pub header: ElfHeader,
    pub text: Vec<u8>,
}

impl Elf {
    /// Parses the header of `bytes` and keeps the bytes from the program
    /// header offset on; `None` when the header does not parse or that offset
    /// lies past the end.
    pub fn parse_elf(bytes: &[u8]) -> (r: Option<Elf>)
        ensures
            r is Some <==> elf_valid(bytes@) && elf_word(bytes@, 0x1C, 0x20) <= bytes@.len(),
            r matches Some(elf) ==> {
                &&& elf.header.describes(bytes@)
                &&& elf.text@ == bytes@.subrange(
                    elf.header.program_header_offset as int,
                    bytes@.len() as int,
                )
            },
    {
        let header = match ElfHeader::parse_header(bytes) {
            Some(h) => h,
            None => return None,
        };
        if header.program_header_offset > bytes.len() as u64 {
            return None;
        }
        let start = header.program_header_offset as usize;
        let mut text: Vec<u8> = Vec::new();
        let mut i: usize = start;
        while i < bytes.len()
            invariant
                start <= i <= bytes@.len(),
                text@ == bytes@.subrange(start as int, i as int),
            decreases bytes@.len() - i,
        {
            text.push(bytes[i]);
            assert(text@ =~= bytes@.subrange(start as int, i + 1));
            i = i + 1;
        }
        Some(Elf { header, text })
    }
}

/// Reads the identification and the fixed codes of an ELF header.
fn parse_ident(b: &[u8]) -> (r: Option<(Bitness, Endianness, ABI, FileType, InstructionSet)>)
    ensures
        r is Some <==> elf_ident_valid(b@),
        r matches Some((bits, e, abi, ft, isa)) ==> {
            &&& bits == elf_bits(b@)
            &&& e == elf_endianness(b@)
            &&& abi.code() == b@[7]
            &&& FileType::of_code(uint_at(b@, 0x10, 2, e) as u16) == Some(ft)
            &&& isa.code() == uint_at(b@, 0x12, 2, e)
        },
{
    if !ElfHeader::is_elf(b) || b.len() < 0x34 {
        return None;
    }
    let bitness = match Bitness::from_code(b[4]) {
        Some(x) => x,
        None => return None,
    };
    if b[4] == 2 && b.len() < 0x40 {
        return None;
    }
    let e = match endianness_from_code(b[5]) {
        Some(x) => x,
        None => return None,
    };
    if b[6] != 1 {
        return None;
    }
    let abi = match ABI::from_code(b[7]) {
        Some(x) => x,
        None => return None,
    };
    let file_type = match FileType::from_code(read_u16(b, 0x10, e)) {
        Some(x) => x,
        None => return None,
    };
    let instruction_set = match InstructionSet::from_code(read_u16(b, 0x12, e)) {
        Some(x) => x,
        None => return None,
    };
    if b[0x14] != 1 {
        return None;
    }
    Some((bitness, e, abi, file_type, instruction_set))
}

/// Reads where the section header table and the section name string table
/// lie: (table, entry size, entry count, string table index, string table).
fn section_layout(b: &[u8], bits: Bitness, e: Endianness) -> (r: Option<(u64, u16, u16, u16, usize)>)
    requires
        elf_ident_valid(b@),
        bits == elf_bits(b@),
        e == elf_endianness(b@),
    ensures
        r is Some <==> {
            &&& elf_section_table(b@) + elf_section_count(b@) * elf_section_entry_size(b@)
                <= b@.len()
            &&& elf_section_count(b@) > 0 ==> elf_section_entry_size(b@)
                >= min_section_entry_size(bits)
            &&& elf_string_table_field(b@) + word_len(bits) <= b@.len()
            &&& elf_string_table(b@) <= b@.len()
        },
        r matches Some((table, size, count, index, strtab)) ==> {
            &&& table == elf_section_table(b@)
            &&& size == elf_section_entry_size(b@)
            &&& count == elf_section_count(b@)
            &&& index == elf_string_table_index(b@)
            &&& strtab == elf_string_table(b@)
        },
{
    let is64 = match bits {
        Bitness::Bit32 => false,
        Bitness::Bit64 => true,
    };
    let (sh, ses, sec, ssi, so) = if is64 {
        (0x28usize, 0x3Ausize, 0x3Cusize, 0x3Eusize, 0x18u128)
    } else {
        (0x20usize, 0x2Eusize, 0x30usize, 0x32usize, 0x10u128)
    };
    let table = read_word(b, sh, bits, e);
    let size = read_u16(b, ses, e);
    let count = read_u16(b, sec, e);
    let index = read_u16(b, ssi, e);
    proof {
        lemma_word_fits(b@, sh as int, bits, e);
        let c = count as int;
        let z = size as int;
        let x = index as int;
        assert(c * z <= 0xFFFF * 0xFFFF) by (nonlinear_arith)
            requires
                0 <= c <= 0xFFFF,
                0 <= z <= 0xFFFF,
        ;
        assert(x * z <= 0xFFFF * 0xFFFF) by (nonlinear_arith)
            requires
                0 <= x <= 0xFFFF,
                0 <= z <= 0xFFFF,
        ;
    }
    let len = b.len();
    let word: u128 = if is64 { 8 } else { 4 };
    if table as u128 + count as u128 * size as u128 > len as u128 {
        return None;
    }
    let min_entry: u16 = if is64 { 0x40 } else { 0x28 };
    if count > 0 && size < min_entry {
        return None;
    }
    let field = table as u128 + index as u128 * size as u128 + so;
    if field + word > len as u128 {
        return None;
    }
    let strtab = read_word(b, field as usize, bits, e);
    if strtab > len as u64 {
        return None;
    }
    Some((table, size, count, index, strtab as usize))
}

/// Reads the dynamic and static symbol tables among `sections` into the
/// address-to-name map and its inverse.
fn parse_symbol_tables(sections: &Vec<Section>, b: &[u8]) -> (r: Option<
    (HashMap<u64, String>, HashMap<String, u64>),
>)
    requires
        elf_ident_valid(b@),
        sections@.map_values(|s: Section| s@) == elf_sections(b@),
    ensures
        r is Some <==> symbol_tables_valid(b@, elf_dynamic_symbols(b@), elf_symbol_names(b@))
            && symbol_tables_valid(b@, elf_static_symbols(b@), elf_symbol_names(b@)),
        r matches Some((symbols, inverse)) ==> {
            &&& names_view(symbols@) == elf_symbols(b@)
            &&& vstd::std_specs::hash::obeys_key_model::<String>() ==> inverts(
                inverse@,
                symbols@,
            )
            &&& vstd::std_specs::hash::obeys_key_model::<String>() ==> names_all(
                inverse@,
                symbols@,
            )
        },
{
    let bitness = match Bitness::from_code(b[4]) {
        Some(x) => x,
        None => Bitness::Bit64,
    };
    let e = match endianness_from_code(b[5]) {
        Some(x) => x,
        None => Endianness::Little,
    };
    let dynamic = find_last(sections, &String::from_str(".dynsym"));
    let statics = find_last(sections, &String::from_str(".symtab"));
    let names = find_last(sections, &String::from_str(".strtab"));
    let mut dynamic_entries: Vec<(u64, String)> = Vec::new();
    let mut static_entries: Vec<(u64, String)> = Vec::new();
    if let (Some(d), Some(n)) = (dynamic, names) {
        match ElfHeader::parse_symbols(&sections[d], &sections[n], b, bitness, e) {
            Some(v) => {
                dynamic_entries = v;
            },
            None => return None,
        }
    }
    if let (Some(t), Some(n)) = (statics, names) {
        match ElfHeader::parse_symbols(&sections[t], &sections[n], b, bitness, e) {
            Some(v) => {
                static_entries = v;
            },
            None => return None,
        }
    }
    assert(pairs_view(dynamic_entries@) =~= entries_of(
        b@,
        elf_dynamic_symbols(b@),
        elf_symbol_names(b@),
    ));
    assert(pairs_view(static_entries@) =~= entries_of(
        b@,
        elf_static_symbols(b@),
        elf_symbol_names(b@),
    ));
    let mut symbols: HashMap<u64, String> = HashMap::new();
    let mut inverse: HashMap<String, u64> = HashMap::new();
    assert(names_view(symbols@) =~= Map::empty());
    insert_symbols(&mut symbols, &dynamic_entries);
    insert_symbols(&mut symbols, &static_entries);
    insert_inverse(&mut inverse, &symbols, &dynamic_entries);
    let ghost middle = inverse@;
    insert_inverse(&mut inverse, &symbols, &static_entries);
    proof {
        if vstd::std_specs::hash::obeys_key_model::<String>() {
            let dv = pairs_view(dynamic_entries@);
            let sv = pairs_view(static_entries@);
            let first = insert_all(Map::empty(), dv);
            assert forall|k: u64| #[trigger] symbols@.contains_key(k) implies has_name(
                inverse@,
                symbols@[k]@,
            ) by {
                assert(names_view(symbols@).contains_key(k));
                lemma_insert_all_source(first, sv, k);
                if first.contains_key(k) && insert_all(first, sv)[k] == first[k] {
                    lemma_insert_all_source(Map::empty(), dv, k);
                    let j = choose|j: int|
                        0 <= j < dv.len() && (#[trigger] dv[j]).0 == k && first[k] == dv[j].1;
                    assert(dynamic_entries@[j].0 == k);
                    assert(symbols@[dynamic_entries@[j].0]@ == dynamic_entries@[j].1@);
                    let n = choose|n: String|
                        #[trigger] middle.contains_key(n) && n@ == dynamic_entries@[j].1@;
                    assert(inverse@.contains_key(n));
                } else {
                    let j = choose|j: int|
                        0 <= j < sv.len() && (#[trigger] sv[j]).0 == k && insert_all(first, sv)[k]
                            == sv[j].1;
                    assert(static_entries@[j].0 == k);
                    assert(symbols@[static_entries@[j].0]@ == static_entries@[j].1@);
                }
            }
        }
    }
    Some((symbols, inverse))
}

} // verus!
