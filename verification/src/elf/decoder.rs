//! The ELF file format: the file header, the section headers and the
//! symbol table, read from the bytes of the file.
use vstd::prelude::*;
use vstd::string::{StringExecFns, StrSliceExecFns};
use crate::binutils::{le_u16, le_u32, from_arm_bytes, from_arm_bytes_16b};
use crate::thumb::interpreter::is_segment_mapping_symbol;
use std::collections::HashMap;

verus! {

/// An address, as it is stored in the file.
pub type Addr = [u8; 4];

/// A half word field, as it is stored in the file.
pub type ElfHalf = [u8; 2];

/// A file offset, as it is stored in the file.
pub type ElfOffset = [u8; 4];

/// A word field, as it is stored in the file.
pub type ElfWord = [u8; 4];

/// The magic number an ELF file starts with: 0x7F, then "ELF".
pub const ELF_FORMAT_HDR: [u8; 4] = [0x7f, 0x45, 0x4c, 0x46];

/// The length of the identification bytes at the start of the file header.
pub const ELF_HDR_LEN: usize = 16;

/// The length of a 32 bit file header.
pub const ELF_HEADER_SIZE: usize = 52;

/// The length of a 32 bit section header.
pub const SECTION_HEADER_SIZE: usize = 40;

/// The length of a 32 bit symbol table entry.
pub const SYMBOL_ENTRY_SIZE: usize = 16;

/// The section index of symbols with an absolute value.
pub const SHN_ABS: u16 = 0xfff1;

/// The word size of the file.
#[derive(Debug, Clone, Copy, PartialEq, Eq, Structural)]
pub enum EIClass {
    _None,
    _32,
    _64,
}

impl From<u8> for EIClass {
    fn from(byte: u8) -> (r: Self) {
        match byte {
            1 => EIClass::_32,
            2 => EIClass::_64,
            _ => EIClass::_None,
        }
    }
}

impl vstd::std_specs::convert::FromSpecImpl<u8> for EIClass {
    open spec fn obeys_from_spec() -> bool {
        true
    }

    open spec fn from_spec(byte: u8) -> Self {
        match byte {
            1 => EIClass::_32,
            2 => EIClass::_64,
            _ => EIClass::_None,
        }
    }
}

/// The type of an object file.
#[derive(Debug, Clone, Copy, PartialEq, Eq, Structural)]
pub enum EIType {
    _None,
    Rel,
    Exec,
    Dyn,
    Core,
    Loproc,
    Hiproc,
}

/// The byte order of the file.
#[derive(Debug, Clone, Copy, PartialEq, Eq, Structural)]
pub enum EIData {
    _None,
    Lsb,
    Msb,
}

/// The byte order that identification byte `byte` names.
pub open spec fn spec_ei_data(byte: u8) -> EIData {
    match byte {
        1 => EIData::Lsb,
        2 => EIData::Msb,
        _ => EIData::_None,
    }
}

impl From<u8> for EIData {
    fn from(byte: u8) -> (r: Self) {
        match byte {
            1 => EIData::Lsb,
            2 => EIData::Msb,
            _ => EIData::_None,
        }
    }
}

impl vstd::std_specs::convert::FromSpecImpl<u8> for EIData {
    open spec fn obeys_from_spec() -> bool {
        true
    }

    open spec fn from_spec(byte: u8) -> Self {
        spec_ei_data(byte)
    }
}

/// The version of the format.
#[derive(Debug, Clone, Copy, PartialEq, Eq, Structural)]
pub enum EIVersion {
    _None,
    Current,
}

impl From<u8> for EIVersion {
    fn from(byte: u8) -> (r: Self) {
        match byte {
            1 => EIVersion::Current,
            _ => EIVersion::_None,
        }
    }
}

impl vstd::std_specs::convert::FromSpecImpl<u8> for EIVersion {
    open spec fn obeys_from_spec() -> bool {
        true
    }

    open spec fn from_spec(byte: u8) -> Self {
        match byte {
            1 => EIVersion::Current,
            _ => EIVersion::_None,
        }
    }
}

/// The machines this reader knows.
#[allow(non_camel_case_types)]
#[derive(Debug, Clone, Copy, PartialEq, Eq, Structural)]
pub enum EIMachine {
    _None,
    Intelx86x64,
    Arm,
}

impl EIMachine {
    /// The number the file header stores for this machine.
    pub fn code(&self) -> (r: u16)
        ensures
            r == match *self {
                EIMachine::_None => 0u16,
                EIMachine::Intelx86x64 => 3u16,
                EIMachine::Arm => 40u16,
            },
    {
        match self {
            EIMachine::_None => 0,
            EIMachine::Intelx86x64 => 3,
            EIMachine::Arm => 40,
        }
    }
}

/// The file header of a 32 bit ELF file, its fields as stored.
#[derive(Debug, Clone, Copy)]
pub struct ElfHeader {
    pub identity: [u8; 16],
    pub e_type: ElfHalf,
    pub machine: ElfHalf,
    pub version: ElfWord,
    pub _entry_point: Addr,
    pub program_header_offset: ElfOffset,
    pub section_header_offset: ElfOffset,
    pub cpu_flags: ElfWord,
    pub elf_header_size_in_bytes: ElfHalf,
    pub program_header_entry_size_in_bytes: ElfHalf,
    pub num_program_header_entries: ElfHalf,
    pub section_header_size_in_bytes: ElfHalf,
    pub num_section_header_entries: ElfHalf,
    pub section_header_table_index: ElfHalf,
}

/// The two bytes of `b` at `i`.
pub open spec fn half_at(b: Seq<u8>, i: int) -> ElfHalf {
    [b[i], b[i + 1]]
}

/// The four bytes of `b` at `i`.
pub open spec fn word_at(b: Seq<u8>, i: int) -> ElfWord {
    [b[i], b[i + 1], b[i + 2], b[i + 3]]
}

fn read_half(b: &[u8], i: usize) -> (r: ElfHalf)
    requires
        i + 2 <= b@.len(),
    ensures
        r == half_at(b@, i as int),
{
    [b[i], b[i + 1]]
}

fn read_word(b: &[u8], i: usize) -> (r: ElfWord)
    requires
        i + 4 <= b@.len(),
    ensures
        r == word_at(b@, i as int),
{
    [b[i], b[i + 1], b[i + 2], b[i + 3]]
}

/// The file header that the first 52 bytes of `b` hold, each field the
/// bytes at its offset.
pub open spec fn spec_elf_header(b: Seq<u8>) -> ElfHeader {
    ElfHeader {
        identity: [b[0], b[1], b[2], b[3], b[4], b[5], b[6], b[7], b[8], b[9], b[10], b[11], b[12], b[13], b[14], b[15]],
        e_type: half_at(b, 16),
        machine: half_at(b, 18),
        version: word_at(b, 20),
        _entry_point: word_at(b, 24),
        program_header_offset: word_at(b, 28),
        section_header_offset: word_at(b, 32),
        cpu_flags: word_at(b, 36),
        elf_header_size_in_bytes: half_at(b, 40),
        program_header_entry_size_in_bytes: half_at(b, 42),
        num_program_header_entries: half_at(b, 44),
        section_header_size_in_bytes: half_at(b, 46),
        num_section_header_entries: half_at(b, 48),
        section_header_table_index: half_at(b, 50),
    }
}

impl ElfHeader {
    /// The file header that the first 52 bytes of `b` hold.
    pub fn from_bytes(b: &[u8]) -> (r: Self)
        requires
            b@.len() >= 52,
        ensures
            r == spec_elf_header(b@),
    {
        let mut identity: [u8; 16] = [0; 16];
        let mut i: usize = 0;
        while i < 16
            invariant
                i <= 16,
                b@.len() >= 52,
                forall|j: int| 0 <= j < i ==> identity[j] == b@[j],
            decreases 16 - i,
        {
            identity[i] = b[i];
            i = i + 1;
        }
        let r = ElfHeader {
            identity,
            e_type: read_half(b, 16),
            machine: read_half(b, 18),
            version: read_word(b, 20),
            _entry_point: read_word(b, 24),
            program_header_offset: read_word(b, 28),
            section_header_offset: read_word(b, 32),
            cpu_flags: read_word(b, 36),
            elf_header_size_in_bytes: read_half(b, 40),
            program_header_entry_size_in_bytes: read_half(b, 42),
            num_program_header_entries: read_half(b, 44),
            section_header_size_in_bytes: read_half(b, 46),
            num_section_header_entries: read_half(b, 48),
            section_header_table_index: read_half(b, 50),
        };
        assert(r.identity =~= spec_elf_header(b@).identity);
        r
    }

    /// The byte order of the file.
    pub fn get_elf_endianess(&self) -> (r: EIData)
        ensures
            r == spec_ei_data(self.identity[5]),
    {
        EIData::from(self.identity[5])
    }
}

/// `bytes` read in the byte order of the file.
pub open spec fn native_16(header: ElfHeader, bytes: [u8; 2]) -> u16 {
    if spec_ei_data(header.identity[5]) == EIData::Lsb {
        le_u16(bytes)
    } else {
        le_u16([bytes[1], bytes[0]])
    }
}

/// `bytes` read in the byte order of the file.
pub open spec fn native_32(header: ElfHeader, bytes: [u8; 4]) -> u32 {
    if spec_ei_data(header.identity[5]) == EIData::Lsb {
        le_u32(bytes)
    } else {
        le_u32([bytes[3], bytes[2], bytes[1], bytes[0]])
    }
}

/// Whether the byte order of the file is known.
pub open spec fn known_order(header: ElfHeader) -> bool {
    spec_ei_data(header.identity[5]) != EIData::_None
}

/// A half word in the byte order of the file.
pub fn to_native_endianness_16b(header: &ElfHeader, bytes: &[u8; 2]) -> (r: u16)
    requires
        known_order(*header),
    ensures
        r == native_16(*header, *bytes),
{
    match header.get_elf_endianess() {
        EIData::Lsb => from_arm_bytes_16b(*bytes),
        _ => from_arm_bytes_16b([bytes[1], bytes[0]]),
    }
}

/// A word in the byte order of the file.
pub fn to_native_endianness_32b(header: &ElfHeader, bytes: &[u8; 4]) -> (r: u32)
    requires
        known_order(*header),
    ensures
        r == native_32(*header, *bytes),
{
    match header.get_elf_endianess() {
        EIData::Lsb => from_arm_bytes(*bytes),
        _ => from_arm_bytes([bytes[3], bytes[2], bytes[1], bytes[0]]),
    }
}

/// Why an ELF file could not be read.
#[derive(Debug, Clone)]
pub enum ElfError {
    Arch(String),
    FileIO(String),
}

impl ElfError {
    /// The message of the error, as it is shown.
    pub fn text(&self) -> (r: String)
        ensures
            r@ == match self {
                ElfError::Arch(m) => m@,
                ElfError::FileIO(m) => m@,
            },
    {
        match self {
            ElfError::FileIO(msg) => msg.clone(),
            ElfError::Arch(msg) => msg.clone(),
        }
    }
}


/// Checks the file header as a reader does before it trusts it: the magic
/// number, then a known byte order.
pub fn check_header(header: &ElfHeader) -> (r: Result<(), ElfError>)
    ensures
        r is Ok <==> (header.identity[0] == 0x7f && header.identity[1] == 0x45 && header.identity[2]
            == 0x4c && header.identity[3] == 0x46 && known_order(*header)),
        r matches Err(e) ==> (e is FileIO <==> !(header.identity[0] == 0x7f && header.identity[1] == 0x45
            && header.identity[2] == 0x4c && header.identity[3] == 0x46)),
{
    if header.identity[0] != ELF_FORMAT_HDR[0] || header.identity[1] != ELF_FORMAT_HDR[1]
        || header.identity[2] != ELF_FORMAT_HDR[2] || header.identity[3] != ELF_FORMAT_HDR[3] {
        return Err(ElfError::FileIO(String::from_str("unsupported format")));
    }
    if header.get_elf_endianess() == EIData::_None {
        return Err(ElfError::Arch(String::from_str("could not read endianness")));
    }
    Ok(())
}

/// The section types this reader knows.
#[derive(Debug, Clone, Copy, PartialEq, Eq, Structural)]
pub enum SectionHeaderType {
    NULL,
    PROGBITS,
    NOBITS,
    SymbolTable,
    StringTable,
    ArmAttributes,
}

impl SectionHeaderType {
    /// The number a section header stores for this type.
    pub fn code(&self) -> (r: u32)
        ensures
            r == match *self {
                SectionHeaderType::NULL => 0u32,
                SectionHeaderType::PROGBITS => 1u32,
                SectionHeaderType::NOBITS => 8u32,
                SectionHeaderType::SymbolTable => 2u32,
                SectionHeaderType::StringTable => 3u32,
                SectionHeaderType::ArmAttributes => 0x70000003u32,
            },
    {
        match self {
            SectionHeaderType::NULL => 0,
            SectionHeaderType::PROGBITS => 1,
            SectionHeaderType::NOBITS => 8,
            SectionHeaderType::SymbolTable => 2,
            SectionHeaderType::StringTable => 3,
            SectionHeaderType::ArmAttributes => 0x70000003,
        }
    }
}

/// The section flags this reader knows.
#[derive(Debug, Clone, Copy, PartialEq, Eq, Structural)]
pub enum SectionHeaderFlag {
    Null,
    Write,
    Allocatable,
    Executable,
}

impl SectionHeaderFlag {
    /// The bit a section header stores for this flag.
    pub fn code(&self) -> (r: u32)
        ensures
            r == match *self {
                SectionHeaderFlag::Null => 0u32,
                SectionHeaderFlag::Write => 1u32,
                SectionHeaderFlag::Allocatable => 2u32,
                SectionHeaderFlag::Executable => 4u32,
            },
    {
        match self {
            SectionHeaderFlag::Null => 0,
            SectionHeaderFlag::Write => 1,
            SectionHeaderFlag::Allocatable => 2,
            SectionHeaderFlag::Executable => 4,
        }
    }
}

/// A section header of a 32 bit ELF file, its fields as stored.
#[derive(Debug, Clone, Copy)]
pub struct SectionHeader {
    pub name: ElfWord,
    pub _type: ElfWord,
    pub flags: ElfWord,
    pub _addr_in_memory_img: Addr,
    pub offset_of_entries_in_bytes: ElfOffset,
    pub section_size_in_bytes: ElfWord,
    pub link: ElfWord,
    pub info: ElfWord,
    pub alignment: ElfWord,
    pub entry_size: ElfWord,
}

/// The section header that the 40 bytes of `b` at `i` hold.
pub open spec fn spec_section_header(b: Seq<u8>, i: int) -> SectionHeader {
    SectionHeader {
        name: word_at(b, i),
        _type: word_at(b, i + 4),
        flags: word_at(b, i + 8),
        _addr_in_memory_img: word_at(b, i + 12),
        offset_of_entries_in_bytes: word_at(b, i + 16),
        section_size_in_bytes: word_at(b, i + 20),
        link: word_at(b, i + 24),
        info: word_at(b, i + 28),
        alignment: word_at(b, i + 32),
        entry_size: word_at(b, i + 36),
    }
}

impl SectionHeader {
    /// The section header that the 40 bytes of `b` at `i` hold.
    pub fn from_bytes(b: &[u8], i: usize) -> (r: Self)
        requires
            i + 40 <= b@.len(),
        ensures
            r == spec_section_header(b@, i as int),
    {
        let total = b.len();
        assert(i + 40 <= total);
        SectionHeader {
            name: read_word(b, i),
            _type: read_word(b, i + 4),
            flags: read_word(b, i + 8),
            _addr_in_memory_img: read_word(b, i + 12),
            offset_of_entries_in_bytes: read_word(b, i + 16),
            section_size_in_bytes: read_word(b, i + 20),
            link: read_word(b, i + 24),
            info: read_word(b, i + 28),
            alignment: read_word(b, i + 32),
            entry_size: read_word(b, i + 36),
        }
    }
}

/// The section headers that `b` holds one after another.
pub fn parse_section_headers(b: &[u8], count: usize) -> (r: Vec<SectionHeader>)
    requires
        count * 40 <= b@.len(),
    ensures
        r@.len() == count,
        forall|k: int| 0 <= k < count ==> #[trigger] r@[k] == spec_section_header(b@, k * 40),
{
    let mut headers: Vec<SectionHeader> = Vec::new();
    let total = b.len();
    let mut k: usize = 0;
    while k < count
        invariant
            total == b@.len(),
            k <= count,
            count * 40 <= b@.len(),
            headers@.len() == k,
            forall|j: int| 0 <= j < k ==> #[trigger] headers@[j] == spec_section_header(b@, j * 40),
        decreases count - k,
    {
        proof {
            assert(k * 40 + 40 <= count * 40) by (nonlinear_arith)
                requires
                    k < count,
            ;
        }
        headers.push(SectionHeader::from_bytes(b, k * 40));
        k = k + 1;
    }
    headers
}

/// The type stored in a section header, in the file's byte order.
pub open spec fn section_type(header: ElfHeader, s: SectionHeader) -> u32 {
    native_32(header, s._type)
}

/// The flags stored in a section header, in the file's byte order.
pub open spec fn section_flags(header: ElfHeader, s: SectionHeader) -> u32 {
    native_32(header, s.flags)
}

/// Whether a section holds program code: loaded bits, allocated and
/// executable and nothing else.
pub fn is_text_section_hdr(header: &ElfHeader, sect_header: &SectionHeader) -> (r: bool)
    requires
        known_order(*header),
    ensures
        r == (section_type(*header, *sect_header) == 1 && section_flags(*header, *sect_header) == 6),
{
    let flags = to_native_endianness_32b(header, &sect_header.flags);
    let _type = to_native_endianness_32b(header, &sect_header._type);
    let text_mask: u32 = 6;
    (_type == SectionHeaderType::PROGBITS.code()) && (flags == text_mask)
}

/// Whether a section holds data: loaded bits, allocated and writable and
/// nothing else.
pub fn is_data_section_hdr(header: &ElfHeader, sect_header: &SectionHeader) -> (r: bool)
    requires
        known_order(*header),
    ensures
        r == (section_type(*header, *sect_header) == 1 && section_flags(*header, *sect_header) == 3),
{
    let flags = to_native_endianness_32b(header, &sect_header.flags);
    let _type = to_native_endianness_32b(header, &sect_header._type);
    let data_mask: u32 = 3;
    (_type == SectionHeaderType::PROGBITS.code()) && (flags == data_mask)
}

/// Whether a section is a symbol table.
pub fn is_symbol_table_section_hdr(header: &ElfHeader, sect_header: &SectionHeader) -> (r: bool)
    requires
        known_order(*header),
    ensures
        r == (section_type(*header, *sect_header) == 2),
{
    let _type = to_native_endianness_32b(header, &sect_header._type);
    _type == SectionHeaderType::SymbolTable.code()
}

/// Whether a section is a string table, unflagged or allocated.
pub fn is_str_table_section_hdr(header: &ElfHeader, sect_header: &SectionHeader) -> (r: bool)
    requires
        known_order(*header),
    ensures
        r == ((section_flags(*header, *sect_header) == 0 || section_flags(*header, *sect_header) == 2)
            && section_type(*header, *sect_header) == 3),
{
    let _type = to_native_endianness_32b(header, &sect_header._type);
    let flags = to_native_endianness_32b(header, &sect_header.flags);
    (flags == 0 || flags == SectionHeaderFlag::Allocatable.code()) && _type
        == SectionHeaderType::StringTable.code()
}

/// Whether the type of a section has the bit of `NOBITS` set.
pub fn has_no_bytes(header: &ElfHeader, sect_header: &SectionHeader) -> (r: bool)
    requires
        known_order(*header),
    ensures
        r == (section_type(*header, *sect_header) & 8u32 > 0),
{
    let flags = to_native_endianness_32b(header, &sect_header._type);
    (flags & SectionHeaderType::NOBITS.code()) > 0
}

/// The index of the section that names the sections.
pub open spec fn names_index(header: ElfHeader) -> u16 {
    native_16(header, header.section_header_table_index)
}

/// The first string table other than the one that names the sections.
pub fn get_string_table_section_hdr(header: &ElfHeader, section_headers: &Vec<SectionHeader>) -> (r: Option<usize>)
    requires
        known_order(*header),
    ensures
        match r {
            Some(i) => {
                &&& i < section_headers@.len()
                &&& i != names_index(*header)
                &&& is_string_table(*header, section_headers@[i as int])
                &&& forall|j: int| 0 <= j < i && j != names_index(*header) ==> !is_string_table(*header, #[trigger] section_headers@[j])
            },
            None => forall|j: int| 0 <= j < section_headers@.len() && j != names_index(*header) ==> !is_string_table(*header, #[trigger] section_headers@[j]),
        },
{
    let mut i: usize = 0;
    while i < section_headers.len()
        invariant
            known_order(*header),
            i <= section_headers@.len(),
            forall|j: int| 0 <= j < i && j != names_index(*header) ==> !is_string_table(*header, #[trigger] section_headers@[j]),
        decreases section_headers@.len() - i,
    {
        let section_name_hdr_index = to_native_endianness_16b(header, &header.section_header_table_index);
        if is_str_table_section_hdr(header, &section_headers[i]) && i != section_name_hdr_index as usize {
            return Some(i);
        }
        i = i + 1;
    }
    None
}

/// Whether a section is a string table, unflagged or allocated.
pub open spec fn is_string_table(header: ElfHeader, s: SectionHeader) -> bool {
    (section_flags(header, s) == 0 || section_flags(header, s) == 2) && section_type(header, s) == 3
}

/// Whether the section that names the sections is where the file header
/// says, and is an unflagged string table.
pub open spec fn names_table_valid(header: ElfHeader, section_headers: Seq<SectionHeader>) -> bool {
    &&& (names_index(header) as int) < section_headers.len()
    &&& section_type(header, section_headers[names_index(header) as int]) == 3
    &&& section_flags(header, section_headers[names_index(header) as int]) == 0
}

/// The section that names the sections.
pub fn get_sh_string_table_header<'a>(header: &'a ElfHeader, section_headers: &'a Vec<SectionHeader>) -> (r: &'a SectionHeader)
    requires
        known_order(*header),
        names_table_valid(*header, section_headers@),
    ensures
        *r == section_headers@[names_index(*header) as int],
{
    let sh_name_table_index = to_native_endianness_16b(header, &header.section_header_table_index);
    &section_headers[sh_name_table_index as usize]
}

/// The entry point of the program.
pub fn get_entry_point_offset(elf_header: &ElfHeader) -> (r: usize)
    requires
        known_order(*elf_header),
    ensures
        r == native_32(*elf_header, elf_header._entry_point),
{
    let offset = to_native_endianness_32b(elf_header, &elf_header._entry_point);
    offset as usize
}


/// An entry of a 32 bit symbol table, its fields as stored.
#[derive(Debug, Clone, Copy)]
pub struct SymbolTableEntry {
    pub name_index: ElfWord,
    pub value: Addr,
    pub size: ElfWord,
    pub info: u8,
    pub other: u8,
    pub header_index: ElfHalf,
}

/// The symbol table entry that the 16 bytes of `b` at `i` hold.
pub open spec fn spec_symbol_entry(b: Seq<u8>, i: int) -> SymbolTableEntry {
    SymbolTableEntry {
        name_index: word_at(b, i),
        value: word_at(b, i + 4),
        size: word_at(b, i + 8),
        info: b[i + 12],
        other: b[i + 13],
        header_index: half_at(b, i + 14),
    }
}

impl SymbolTableEntry {
    /// The symbol table entry that the 16 bytes of `b` at `i` hold.
    pub fn from_bytes(b: &[u8], i: usize) -> (r: Self)
        requires
            i + 16 <= b@.len(),
        ensures
            r == spec_symbol_entry(b@, i as int),
    {
        let total = b.len();
        assert(i + 16 <= total);
        SymbolTableEntry {
            name_index: read_word(b, i),
            value: read_word(b, i + 4),
            size: read_word(b, i + 8),
            info: b[i + 12],
            other: b[i + 13],
            header_index: read_half(b, i + 14),
        }
    }
}

/// The symbol table entries that `b` holds one after another.
pub fn parse_symbol_entries(b: &[u8], count: usize) -> (r: Vec<SymbolTableEntry>)
    requires
        count * 16 <= b@.len(),
    ensures
        r@.len() == count,
        forall|k: int| 0 <= k < count ==> #[trigger] r@[k] == spec_symbol_entry(b@, k * 16),
{
    let mut entries: Vec<SymbolTableEntry> = Vec::new();
    let total = b.len();
    let mut k: usize = 0;
    while k < count
        invariant
            total == b@.len(),
            k <= count,
            count * 16 <= b@.len(),
            entries@.len() == k,
            forall|j: int| 0 <= j < k ==> #[trigger] entries@[j] == spec_symbol_entry(b@, j * 16),
        decreases count - k,
    {
        proof {
            assert(k * 16 + 16 <= count * 16) by (nonlinear_arith)
                requires
                    k < count,
            ;
        }
        entries.push(SymbolTableEntry::from_bytes(b, k * 16));
        k = k + 1;
    }
    entries
}

/// The kind of thing a symbol names.
#[derive(Debug, Clone, Copy, PartialEq, Eq, Structural)]
pub enum SymbolType {
    Notype,
    Object,
    Func,
    Section,
    File,
    Loproc,
    Hiproc,
}

/// The visibility of a symbol.
#[derive(Debug, Clone, Copy, PartialEq, Eq, Structural)]
pub enum SymbolBinding {
    Local,
    Global,
    Weak,
    Loproc,
    Hiproc,
}

/// The type in the low four bits of a symbol's info byte.
pub open spec fn spec_symbol_type(info: u8) -> Option<SymbolType> {
    match info & 0xf {
        0 => Some(SymbolType::Notype),
        1 => Some(SymbolType::Object),
        2 => Some(SymbolType::Func),
        3 => Some(SymbolType::Section),
        4 => Some(SymbolType::File),
        13 => Some(SymbolType::Loproc),
        15 => Some(SymbolType::Hiproc),
        _ => None,
    }
}

/// The binding in the high four bits of a symbol's info byte.
pub open spec fn spec_symbol_binding(info: u8) -> Option<SymbolBinding> {
    match info >> 4u8 {
        0 => Some(SymbolBinding::Local),
        1 => Some(SymbolBinding::Global),
        2 => Some(SymbolBinding::Weak),
        13 => Some(SymbolBinding::Loproc),
        15 => Some(SymbolBinding::Hiproc),
        _ => None,
    }
}

/// The type of a symbol, where it is one this reader knows.
pub fn symbol_type_of(symbol: &SymbolTableEntry) -> (r: Option<SymbolType>)
    ensures
        r == spec_symbol_type(symbol.info),
{
    match symbol.info & 0xf {
        0 => Some(SymbolType::Notype),
        1 => Some(SymbolType::Object),
        2 => Some(SymbolType::Func),
        3 => Some(SymbolType::Section),
        4 => Some(SymbolType::File),
        13 => Some(SymbolType::Loproc),
        15 => Some(SymbolType::Hiproc),
        _ => None,
    }
}

/// The binding of a symbol, where it is one this reader knows.
pub fn symbol_binding_of(symbol: &SymbolTableEntry) -> (r: Option<SymbolBinding>)
    ensures
        r == spec_symbol_binding(symbol.info),
{
    match symbol.info >> 4 {
        0 => Some(SymbolBinding::Local),
        1 => Some(SymbolBinding::Global),
        2 => Some(SymbolBinding::Weak),
        13 => Some(SymbolBinding::Loproc),
        15 => Some(SymbolBinding::Hiproc),
        _ => None,
    }
}

/// Whether a symbol has no type.
pub fn has_no_type(symbol: &SymbolTableEntry) -> (r: bool)
    ensures
        r == (spec_symbol_type(symbol.info) == Some(SymbolType::Notype)),
{
    match symbol_type_of(symbol) {
        Some(SymbolType::Notype) => true,
        _ => false,
    }
}

/// Whether a symbol names code or a label: no type, or a function.
pub open spec fn visible_type(info: u8) -> bool {
    spec_symbol_type(info) == Some(SymbolType::Notype) || spec_symbol_type(info) == Some(SymbolType::Func)
}

/// Whether a symbol names code or a label: no type, or a function.
pub fn has_a_visible_type(symbol: &SymbolTableEntry) -> (r: bool)
    ensures
        r == visible_type(symbol.info),
{
    match symbol_type_of(symbol) {
        Some(SymbolType::Notype) | Some(SymbolType::Func) => true,
        _ => false,
    }
}

/// Whether a symbol is local.
pub fn has_local_binding(symbol: &SymbolTableEntry) -> (r: bool)
    ensures
        r == (spec_symbol_binding(symbol.info) == Some(SymbolBinding::Local)),
{
    match symbol_binding_of(symbol) {
        Some(SymbolBinding::Local) => true,
        _ => false,
    }
}

/// Whether a symbol has a binding this reader knows.
pub fn has_any_binding(symbol: &SymbolTableEntry) -> (r: bool)
    ensures
        r == spec_symbol_binding(symbol.info) is Some,
{
    symbol_binding_of(symbol).is_some()
}

/// Whether the symbol table keeps `e`: a visible type, a known binding and
/// a name.
pub open spec fn symbol_kept(header: ElfHeader, e: SymbolTableEntry) -> bool {
    visible_type(e.info) && spec_symbol_binding(e.info) is Some && native_32(header, e.name_index) != 0
}

/// Whether the high four bits of `info` are a binding this reader knows:
/// local, global, weak, or processor specific.
pub open spec fn known_binding_bits(info: u8) -> bool {
    let b = info >> 4u8;
    b == 0 || b == 1 || b == 2 || b == 13 || b == 15
}

/// The symbols kept from a table are exactly those that name code or a
/// label: of type 0 (no type) or 2 (function) in the low four bits of their
/// info, with a known binding and a name. A data object (type 1), a section
/// or a file symbol is never kept.
pub proof fn lemma_kept_symbols_are_code(header: ElfHeader, entries: Seq<SymbolTableEntry>, kept: Seq<SymbolTableEntry>)
    requires
        kept == entries.filter(|e: SymbolTableEntry| symbol_kept(header, e)),
    ensures
        forall|k: int|
            0 <= k < kept.len() ==> (#[trigger] kept[k].info & 0xfu8 == 0 || kept[k].info & 0xfu8 == 2)
                && kept[k].info & 0xfu8 != 1 && known_binding_bits(kept[k].info) && native_32(header, kept[k].name_index)
                != 0 && entries.contains(kept[k]),
        forall|i: int|
            0 <= i < entries.len() && (#[trigger] entries[i].info & 0xfu8 == 0 || entries[i].info & 0xfu8 == 2)
                && known_binding_bits(entries[i].info) && native_32(header, entries[i].name_index) != 0
                ==> kept.contains(entries[i]),
{
    let pred = |e: SymbolTableEntry| symbol_kept(header, e);
    entries.filter_lemma(pred);
    assert forall|k: int| 0 <= k < kept.len() implies (#[trigger] kept[k].info & 0xfu8 == 0 || kept[k].info & 0xfu8 == 2)
        && kept[k].info & 0xfu8 != 1 && known_binding_bits(kept[k].info) && native_32(header, kept[k].name_index) != 0
        && entries.contains(kept[k]) by {
        assert(pred(kept[k]));
        assert(kept.contains(kept[k]));
        entries.lemma_filter_contains_rev(pred, kept[k]);
    }
    assert forall|i: int|
        0 <= i < entries.len() && (#[trigger] entries[i].info & 0xfu8 == 0 || entries[i].info & 0xfu8 == 2)
            && known_binding_bits(entries[i].info) && native_32(header, entries[i].name_index) != 0
            implies kept.contains(entries[i]) by {
        assert(pred(entries[i]));
        entries.lemma_filter_contains(pred, i);
    }
}

/// The entries of a symbol table that name code or labels, in order.
pub fn select_symbols(elf_header: &ElfHeader, entries: Vec<SymbolTableEntry>) -> (r: Vec<SymbolTableEntry>)
    requires
        known_order(*elf_header),
    ensures
        r@ == entries@.filter(|e: SymbolTableEntry| symbol_kept(*elf_header, e)),
        forall|k: int|
            0 <= k < r@.len() ==> (#[trigger] r@[k].info & 0xfu8 == 0 || r@[k].info & 0xfu8 == 2) && r@[k].info
                & 0xfu8 != 1,
{
    let mut kept: Vec<SymbolTableEntry> = Vec::new();
    let mut i: usize = 0;
    while i < entries.len()
        invariant
            known_order(*elf_header),
            i <= entries@.len(),
            kept@ == entries@.take(i as int).filter(|e: SymbolTableEntry| symbol_kept(*elf_header, e)),
        decreases entries@.len() - i,
    {
        let e = entries[i];
        proof {
            assert(entries@.take(i as int + 1) == entries@.take(i as int).push(e));
            entries@.take(i as int).lemma_filter_push(e, |e: SymbolTableEntry| symbol_kept(*elf_header, e));
        }
        if has_a_visible_type(&e) && has_any_binding(&e) && to_native_endianness_32b(elf_header, &e.name_index) != 0 {
            kept.push(e);
        }
        i = i + 1;
    }
    proof {
        assert(entries@.take(entries@.len() as int) =~= entries@);
        lemma_kept_symbols_are_code(*elf_header, entries@, kept@);
    }
    kept
}

/// Where a section's bytes lie in the file, and how many there are.
pub open spec fn extent(header: ElfHeader, s: SectionHeader) -> (u32, u32) {
    (native_32(header, s.offset_of_entries_in_bytes), native_32(header, s.section_size_in_bytes))
}

/// Where the entries of a symbol table lie in the file, and how many there
/// are: an error for a section that is no symbol table, none for one
/// without bytes.
pub fn symbol_table_extent(elf_header: &ElfHeader, symtable_hdr: &SectionHeader) -> (r: Result<Option<(u32, u32)>, ElfError>)
    requires
        known_order(*elf_header),
        section_type(*elf_header, *symtable_hdr) == 2 && section_type(*elf_header, *symtable_hdr) & 8u32 == 0
            ==> native_32(*elf_header, symtable_hdr.entry_size) == 16,
    ensures
        r is Err <==> section_type(*elf_header, *symtable_hdr) != 2,
        r matches Ok(x) ==> (x is None <==> section_type(*elf_header, *symtable_hdr) & 8u32 > 0),
        r matches Ok(Some((offset, count))) ==> offset == extent(*elf_header, *symtable_hdr).0 && count
            == extent(*elf_header, *symtable_hdr).1 / 16,
{
    if !is_symbol_table_section_hdr(elf_header, symtable_hdr) {
        return Err(ElfError::FileIO(String::from_str("Cannot read, the symbol table section header given was not a symbol table header")));
    }
    if has_no_bytes(elf_header, symtable_hdr) {
        return Ok(None);
    }
    let symbol_table_offset = to_native_endianness_32b(elf_header, &symtable_hdr.offset_of_entries_in_bytes);
    let bytes = to_native_endianness_32b(elf_header, &symtable_hdr.section_size_in_bytes);
    let entry_size = to_native_endianness_32b(elf_header, &symtable_hdr.entry_size);
    Ok(Some((symbol_table_offset, bytes / entry_size)))
}

/// Where the bytes of a text section lie in the file, and how many there
/// are: an error for a section that is no text section, none for one
/// without bytes.
pub fn text_section_extent(elf_header: &ElfHeader, sect_header: &SectionHeader) -> (r: Result<Option<(u32, u32)>, ElfError>)
    requires
        known_order(*elf_header),
    ensures
        r is Err <==> !(section_type(*elf_header, *sect_header) == 1 && section_flags(*elf_header, *sect_header) == 6),
        r matches Ok(x) ==> (x is None <==> section_type(*elf_header, *sect_header) & 8u32 > 0),
        r matches Ok(Some(x)) ==> x == extent(*elf_header, *sect_header),
{
    if !is_text_section_hdr(elf_header, sect_header) {
        return Err(ElfError::FileIO(String::from_str("cannot read, the section header given was now a text section header")));
    }
    if has_no_bytes(elf_header, sect_header) {
        return Ok(None);
    }
    let text_offset = to_native_endianness_32b(elf_header, &sect_header.offset_of_entries_in_bytes);
    let bytes = to_native_endianness_32b(elf_header, &sect_header.section_size_in_bytes);
    Ok(Some((text_offset, bytes)))
}


/// A zero byte ends the string that starts at `i` in `b`.
pub open spec fn terminated(b: Seq<u8>, i: int) -> bool {
    exists|j: int| i <= j < b.len() && b[j] == 0
}

/// The string that starts at `i` in the string table `b`: its bytes, each
/// read as a character, up to the first zero byte.
pub open spec fn name_text(b: Seq<u8>, i: int) -> Seq<char>
    decreases b.len() - i,
{
    if i < 0 || i >= b.len() || b[i] == 0 {
        Seq::empty()
    } else {
        seq![b[i] as char] + name_text(b, i + 1)
    }
}

/// The string that starts at `index` in the string table `str_buffer`.
pub fn read_name(str_buffer: &[u8], index: usize) -> (r: String)
    requires
        terminated(str_buffer@, index as int),
    ensures
        r@ == name_text(str_buffer@, index as int),
{
    let mut name = String::new();
    let mut c = index;
    let ghost b = str_buffer@;
    while str_buffer[c] != 0
        invariant
            b == str_buffer@,
            index <= c < b.len(),
            terminated(b, c as int),
            name@ + name_text(b, c as int) == name_text(b, index as int),
        decreases b.len() - c,
    {
        let ch = str_buffer[c] as char;
        crate::thumb::decode_operands::push_char(&mut name, ch);
        proof {
            assert(name@ + name_text(b, c + 1) =~= name_text(b, index as int));
            let j = choose|j: int| c <= j < b.len() && b[j] == 0;
            assert(j != c);
        }
        c = c + 1;
    }
    proof {
        assert(name@ =~= name_text(b, index as int));
    }
    name
}

/// The name of a section, read from the table of section names `buf`; the
/// table's own section has none.
pub open spec fn section_name_text(header: ElfHeader, s: SectionHeader, names_hdr: SectionHeader, buf: Seq<u8>) -> Seq<char> {
    let name = native_32(header, s.name);
    if name != native_32(header, names_hdr.name) {
        name_text(buf, name as int)
    } else {
        Seq::empty()
    }
}

/// Whether the name of section `s` can be read from `buf`.
pub open spec fn name_readable(header: ElfHeader, s: SectionHeader, names_hdr: SectionHeader, buf: Seq<u8>) -> bool {
    native_32(header, s.name) != native_32(header, names_hdr.name) ==> terminated(buf, native_32(header, s.name) as int)
}

/// The name of section `sect_hdr`, read from the table of section names
/// `str_buffer`, whose header is `sh_str_table_hdr`.
pub fn section_name(header: &ElfHeader, sect_hdr: &SectionHeader, sh_str_table_hdr: &SectionHeader, str_buffer: &[u8]) -> (r: String)
    requires
        known_order(*header),
        name_readable(*header, *sect_hdr, *sh_str_table_hdr, str_buffer@),
    ensures
        r@ == section_name_text(*header, *sect_hdr, *sh_str_table_hdr, str_buffer@),
{
    let sh_str_name = to_native_endianness_32b(header, &sh_str_table_hdr.name);
    let name = to_native_endianness_32b(header, &sect_hdr.name);
    if name != sh_str_name {
        read_name(str_buffer, name as usize)
    } else {
        String::new()
    }
}

/// The names of the sections but the one that names them, in order.
pub open spec fn section_names_upto(header: ElfHeader, hdrs: Seq<SectionHeader>, names_hdr: SectionHeader, buf: Seq<u8>, k: int) -> Seq<Seq<char>>
    decreases k,
{
    if k <= 0 {
        Seq::empty()
    } else {
        let before = section_names_upto(header, hdrs, names_hdr, buf, k - 1);
        if native_32(header, hdrs[k - 1].name) != native_32(header, names_hdr.name) {
            before.push(name_text(buf, native_32(header, hdrs[k - 1].name) as int))
        } else {
            before
        }
    }
}

/// The texts of a list of strings.
pub open spec fn texts(v: Seq<String>) -> Seq<Seq<char>> {
    v.map_values(|s: String| s@)
}

/// The names of the sections, read from the table of section names
/// `str_buffer`, leaving out the section of that table.
pub fn section_names(header: &ElfHeader, sect_hdrs: &Vec<SectionHeader>, str_buffer: &[u8]) -> (r: Vec<String>)
    requires
        known_order(*header),
        names_table_valid(*header, sect_hdrs@),
        forall|k: int| 0 <= k < sect_hdrs@.len() ==> name_readable(*header, #[trigger] sect_hdrs@[k], sect_hdrs@[names_index(*header) as int], str_buffer@),
    ensures
        texts(r@) == section_names_upto(*header, sect_hdrs@, sect_hdrs@[names_index(*header) as int], str_buffer@, sect_hdrs@.len() as int),
{
    let sh_str_table_hdr = get_sh_string_table_header(header, sect_hdrs);
    let sh_str_name = to_native_endianness_32b(header, &sh_str_table_hdr.name);
    let mut name_list: Vec<String> = Vec::new();
    let mut i: usize = 0;
    while i < sect_hdrs.len()
        invariant
            known_order(*header),
            *sh_str_table_hdr == sect_hdrs@[names_index(*header) as int],
            sh_str_name == native_32(*header, sh_str_table_hdr.name),
            i <= sect_hdrs@.len(),
            forall|k: int| 0 <= k < sect_hdrs@.len() ==> name_readable(*header, #[trigger] sect_hdrs@[k], sect_hdrs@[names_index(*header) as int], str_buffer@),
            texts(name_list@) == section_names_upto(*header, sect_hdrs@, *sh_str_table_hdr, str_buffer@, i as int),
        decreases sect_hdrs@.len() - i,
    {
        let name = to_native_endianness_32b(header, &sect_hdrs[i].name);
        if name != sh_str_name {
            proof {
                assert(name_readable(*header, sect_hdrs@[i as int], sect_hdrs@[names_index(*header) as int], str_buffer@));
            }
            let section_name = read_name(str_buffer, name as usize);
            name_list.push(section_name);
            proof {
                assert(texts(name_list@) =~= section_names_upto(*header, sect_hdrs@, *sh_str_table_hdr, str_buffer@, i + 1));
            }
        }
        i = i + 1;
    }
    name_list
}

/// How a section is loaded: its bytes from the file, or zeros.
#[derive(Debug, Clone, Copy, PartialEq, Eq, Structural)]
pub enum LoadType {
    PROGBITS,
    NOBITS,
}

/// A section that the program occupies in memory.
#[derive(Debug, Clone)]
pub struct Section {
    pub name: String,
    pub start: u32,
    pub len: u32,
    pub load: LoadType,
}

/// A section as values: its name, start, length and load type.
pub open spec fn section_view(s: Section) -> (Seq<char>, u32, u32, LoadType) {
    (s.name@, s.start, s.len, s.load)
}

/// The allocated sections of the first `k` headers that hold bits or
/// zeros, in order.
pub open spec fn loadable_upto(header: ElfHeader, hdrs: Seq<SectionHeader>, names_hdr: SectionHeader, buf: Seq<u8>, k: int) -> Seq<(Seq<char>, u32, u32, LoadType)>
    decreases k,
{
    if k <= 0 {
        Seq::empty()
    } else {
        let before = loadable_upto(header, hdrs, names_hdr, buf, k - 1);
        let h = hdrs[k - 1];
        let t = section_type(header, h);
        let entry = |load: LoadType| (section_name_text(header, h, names_hdr, buf), native_32(header, h._addr_in_memory_img), native_32(header, h.section_size_in_bytes), load);
        if section_flags(header, h) & 2u32 > 0 {
            if t == 8 {
                before.push(entry(LoadType::NOBITS))
            } else if t == 1 {
                before.push(entry(LoadType::PROGBITS))
            } else {
                before
            }
        } else {
            before
        }
    }
}

/// The sections that the program occupies in memory: the allocated
/// sections that hold bits from the file or zeros, with their names read
/// from the table of section names `str_buffer`.
pub fn loadable_sections(header: &ElfHeader, sect_hdrs: &Vec<SectionHeader>, str_buffer: &[u8]) -> (r: Vec<Section>)
    requires
        known_order(*header),
        names_table_valid(*header, sect_hdrs@),
        forall|k: int| 0 <= k < sect_hdrs@.len() ==> name_readable(*header, #[trigger] sect_hdrs@[k], sect_hdrs@[names_index(*header) as int], str_buffer@),
    ensures
        r@.map_values(|s: Section| section_view(s)) == loadable_upto(*header, sect_hdrs@, sect_hdrs@[names_index(*header) as int], str_buffer@, sect_hdrs@.len() as int),
{
    let mut loadable: Vec<Section> = Vec::new();
    let sh_str_table_hdr = get_sh_string_table_header(header, sect_hdrs);
    let mut i: usize = 0;
    while i < sect_hdrs.len()
        invariant
            known_order(*header),
            *sh_str_table_hdr == sect_hdrs@[names_index(*header) as int],
            i <= sect_hdrs@.len(),
            forall|k: int| 0 <= k < sect_hdrs@.len() ==> name_readable(*header, #[trigger] sect_hdrs@[k], sect_hdrs@[names_index(*header) as int], str_buffer@),
            loadable@.map_values(|s: Section| section_view(s)) == loadable_upto(*header, sect_hdrs@, *sh_str_table_hdr, str_buffer@, i as int),
        decreases sect_hdrs@.len() - i,
    {
        let hdr = &sect_hdrs[i];
        let flags = to_native_endianness_32b(header, &hdr.flags);
        if flags & SectionHeaderFlag::Allocatable.code() > 0 {
            proof {
                assert(name_readable(*header, sect_hdrs@[i as int], sect_hdrs@[names_index(*header) as int], str_buffer@));
            }
            let name = section_name(header, hdr, sh_str_table_hdr, str_buffer);
            let _type = to_native_endianness_32b(header, &hdr._type);
            let addr = to_native_endianness_32b(header, &hdr._addr_in_memory_img);
            let size = to_native_endianness_32b(header, &hdr.section_size_in_bytes);
            if _type == SectionHeaderType::NOBITS.code() {
                loadable.push(Section { name, start: addr, len: size, load: LoadType::NOBITS });
            } else if _type == SectionHeaderType::PROGBITS.code() {
                loadable.push(Section { name, start: addr, len: size, load: LoadType::PROGBITS });
            }
        }
        proof {
            assert(loadable@.map_values(|s: Section| section_view(s)) =~= loadable_upto(*header, sect_hdrs@, *sh_str_table_hdr, str_buffer@, i + 1));
        }
        i = i + 1;
    }
    loadable
}

/// The bytes that the section `h` puts in memory: zeros where it holds
/// none in the file, else its bytes in the file `image`; `None` where the
/// file ends before them.
pub open spec fn section_data(header: ElfHeader, h: SectionHeader, image: Seq<u8>) -> Option<Seq<u8>> {
    let size = native_32(header, h.section_size_in_bytes);
    if section_type(header, h) == 8 {
        Some(Seq::new(size as nat, |i: int| 0u8))
    } else {
        let off = native_32(header, h.offset_of_entries_in_bytes);
        if off + size <= image.len() {
            Some(image.subrange(off as int, off + size))
        } else {
            None
        }
    }
}

/// The loadable sections among the first `k` headers, each with its name,
/// address and bytes, in order; `None` where the bytes of one are missing
/// from the file or do not fit in the address space.
pub open spec fn loaded_upto(header: ElfHeader, hdrs: Seq<SectionHeader>, names_hdr: SectionHeader, buf: Seq<u8>, image: Seq<u8>, k: int) -> Option<Seq<(Seq<char>, u32, Seq<u8>)>>
    decreases k,
{
    if k <= 0 {
        Some(Seq::empty())
    } else {
        match loaded_upto(header, hdrs, names_hdr, buf, image, k - 1) {
            None => None,
            Some(before) => {
                let h = hdrs[k - 1];
                let t = section_type(header, h);
                if section_flags(header, h) & 2u32 > 0 && (t == 8 || t == 1) {
                    match section_data(header, h, image) {
                        None => None,
                        Some(d) => {
                            let addr = native_32(header, h._addr_in_memory_img);
                            if addr + d.len() <= 0x1_0000_0000 {
                                Some(before.push((section_name_text(header, h, names_hdr, buf), addr, d)))
                            } else {
                                None
                            }
                        },
                    }
                } else {
                    Some(before)
                }
            },
        }
    }
}

proof fn lemma_loaded_none(header: ElfHeader, hdrs: Seq<SectionHeader>, names_hdr: SectionHeader, buf: Seq<u8>, image: Seq<u8>, k: int, m: int)
    requires
        k <= m,
        loaded_upto(header, hdrs, names_hdr, buf, image, k) is None,
    ensures
        loaded_upto(header, hdrs, names_hdr, buf, image, m) is None,
    decreases m - k,
{
    if k < m {
        lemma_loaded_none(header, hdrs, names_hdr, buf, image, k, m - 1);
    }
}

/// A loaded section as values: its name, address and bytes.
pub open spec fn loaded_view(s: (String, u32, Vec<u8>)) -> (Seq<char>, u32, Seq<u8>) {
    (s.0@, s.1, s.2@)
}

/// The bytes of section `h`, taken from the file `image`.
fn section_bytes(header: &ElfHeader, h: &SectionHeader, image: &[u8]) -> (r: Option<Vec<u8>>)
    requires
        known_order(*header),
    ensures
        match section_data(*header, *h, image@) {
            Some(d) => r matches Some(v) && v@ == d,
            None => r is None,
        },
{
    let size = to_native_endianness_32b(header, &h.section_size_in_bytes);
    let kind = to_native_endianness_32b(header, &h._type);
    let mut data: Vec<u8> = Vec::new();
    if kind == SectionHeaderType::NOBITS.code() {
        let mut i: u32 = 0;
        while i < size
            invariant
                i <= size,
                data@ == Seq::new(i as nat, |j: int| 0u8),
            decreases size - i,
        {
            data.push(0u8);
            proof {
                assert(data@ =~= Seq::new((i + 1) as nat, |j: int| 0u8));
            }
            i = i + 1;
        }
        return Some(data);
    }
    let off = to_native_endianness_32b(header, &h.offset_of_entries_in_bytes);
    let n = image.len();
    if off as usize > n || size as usize > n - off as usize {
        return None;
    }
    let start = off as usize;
    let end = start + size as usize;
    let mut i: usize = start;
    while i < end
        invariant
            start <= i <= end <= image@.len(),
            data@ == image@.subrange(start as int, i as int),
        decreases end - i,
    {
        data.push(image[i]);
        proof {
            assert(data@ =~= image@.subrange(start as int, i + 1));
        }
        i = i + 1;
    }
    Some(data)
}

/// The sections that the program occupies in memory, each with its name,
/// address and the bytes to put there: its bytes in the file `image`, or
/// zeros; names are read from the table of section names `str_buffer`. An
/// error where the file ends before the bytes of a section, or a section
/// does not fit in the address space.
pub fn load_sections(header: &ElfHeader, sect_hdrs: &Vec<SectionHeader>, str_buffer: &[u8], image: &[u8]) -> (r: Result<Vec<(String, u32, Vec<u8>)>, ElfError>)
    requires
        known_order(*header),
        names_table_valid(*header, sect_hdrs@),
        forall|k: int| 0 <= k < sect_hdrs@.len() ==> name_readable(*header, #[trigger] sect_hdrs@[k], sect_hdrs@[names_index(*header) as int], str_buffer@),
    ensures
        match loaded_upto(*header, sect_hdrs@, sect_hdrs@[names_index(*header) as int], str_buffer@, image@, sect_hdrs@.len() as int) {
            Some(v) => r matches Ok(l) && l@.map_values(|s: (String, u32, Vec<u8>)| loaded_view(s)) == v,
            None => r matches Err(e) && e is FileIO,
        },
{
    let mut loaded: Vec<(String, u32, Vec<u8>)> = Vec::new();
    let sh_str_table_hdr = get_sh_string_table_header(header, sect_hdrs);
    let mut i: usize = 0;
    while i < sect_hdrs.len()
        invariant
            known_order(*header),
            *sh_str_table_hdr == sect_hdrs@[names_index(*header) as int],
            i <= sect_hdrs@.len(),
            forall|k: int| 0 <= k < sect_hdrs@.len() ==> name_readable(*header, #[trigger] sect_hdrs@[k], sect_hdrs@[names_index(*header) as int], str_buffer@),
            loaded_upto(*header, sect_hdrs@, *sh_str_table_hdr, str_buffer@, image@, i as int) == Some(loaded@.map_values(|s: (String, u32, Vec<u8>)| loaded_view(s))),
        decreases sect_hdrs@.len() - i,
    {
        let hdr = &sect_hdrs[i];
        let flags = to_native_endianness_32b(header, &hdr.flags);
        let kind = to_native_endianness_32b(header, &hdr._type);
        let ghost before = loaded@.map_values(|s: (String, u32, Vec<u8>)| loaded_view(s));
        if flags & SectionHeaderFlag::Allocatable.code() > 0 && (kind == SectionHeaderType::NOBITS.code() || kind == SectionHeaderType::PROGBITS.code()) {
            proof {
                assert(name_readable(*header, sect_hdrs@[i as int], sect_hdrs@[names_index(*header) as int], str_buffer@));
            }
            let data = match section_bytes(header, hdr, image) {
                Some(d) => d,
                None => {
                    proof {
                        lemma_loaded_none(*header, sect_hdrs@, *sh_str_table_hdr, str_buffer@, image@, i + 1, sect_hdrs@.len() as int);
                    }
                    return Err(ElfError::FileIO(String::from_str("failed to fill whole buffer")));
                },
            };
            let addr = to_native_endianness_32b(header, &hdr._addr_in_memory_img);
            if data.len() as u64 > 0x1_0000_0000u64 - addr as u64 {
                proof {
                    lemma_loaded_none(*header, sect_hdrs@, *sh_str_table_hdr, str_buffer@, image@, i + 1, sect_hdrs@.len() as int);
                }
                return Err(ElfError::FileIO(String::from_str("a section does not fit in the address space")));
            }
            let name = section_name(header, hdr, sh_str_table_hdr, str_buffer);
            let ghost entry = (name@, addr, data@);
            loaded.push((name, addr, data));
            proof {
                assert(loaded@.map_values(|s: (String, u32, Vec<u8>)| loaded_view(s)) =~= before.push(entry));
            }
        }
        i = i + 1;
    }
    Ok(loaded)
}

/// The names of the symbols `entries`, read from the string table `buf`.
pub open spec fn symbol_name_texts(header: ElfHeader, entries: Seq<SymbolTableEntry>, buf: Seq<u8>) -> Seq<Seq<char>> {
    entries.map_values(|e: SymbolTableEntry| name_text(buf, native_32(header, e.name_index) as int))
}

/// The names of the symbols `sym_entries`, read from the string table
/// `str_buffer`.
pub fn symbol_names(elf_header: &ElfHeader, sym_entries: &Vec<SymbolTableEntry>, str_buffer: &[u8]) -> (r: Vec<String>)
    requires
        known_order(*elf_header),
        forall|k: int| 0 <= k < sym_entries@.len() ==> terminated(str_buffer@, native_32(*elf_header, #[trigger] sym_entries@[k].name_index) as int),
    ensures
        texts(r@) == symbol_name_texts(*elf_header, sym_entries@, str_buffer@),
{
    let mut symbol_names: Vec<String> = Vec::new();
    let mut i: usize = 0;
    while i < sym_entries.len()
        invariant
            known_order(*elf_header),
            i <= sym_entries@.len(),
            forall|k: int| 0 <= k < sym_entries@.len() ==> terminated(str_buffer@, native_32(*elf_header, #[trigger] sym_entries@[k].name_index) as int),
            texts(symbol_names@) == symbol_name_texts(*elf_header, sym_entries@.take(i as int), str_buffer@),
        decreases sym_entries@.len() - i,
    {
        let index = to_native_endianness_32b(elf_header, &sym_entries[i].name_index) as usize;
        proof {
            assert(terminated(str_buffer@, native_32(*elf_header, sym_entries@[i as int].name_index) as int));
        }
        let name = read_name(str_buffer, index);
        let ghost before = symbol_names@;
        symbol_names.push(name);
        proof {
            assert(sym_entries@.take(i + 1) =~= sym_entries@.take(i as int).push(sym_entries@[i as int]));
            assert(symbol_names@ =~= before.push(name));
            assert(texts(symbol_names@) =~= texts(before).push(name@));
            assert(texts(symbol_names@) =~= symbol_name_texts(*elf_header, sym_entries@.take(i + 1), str_buffer@));
        }
        i = i + 1;
    }
    proof {
        assert(sym_entries@.take(sym_entries@.len() as int) =~= sym_entries@);
    }
    symbol_names
}


/// A symbol: where it is, its name, the section it belongs to and its
/// type.
#[derive(Debug, Clone)]
pub struct SymbolDefinition {
    pub position: usize,
    pub name: String,
    pub section_index: u16,
    pub _type: SymbolType,
}

/// Symbols are ordered by position, then by section.
pub open spec fn symbol_le(a: SymbolDefinition, b: SymbolDefinition) -> bool {
    a.position < b.position || (a.position == b.position && a.section_index <= b.section_index)
}

/// `s` is in symbol order.
pub open spec fn symbols_sorted(s: Seq<SymbolDefinition>) -> bool {
    forall|i: int, j: int| 0 <= i < j < s.len() ==> symbol_le(#[trigger] s[i], #[trigger] s[j])
}

/// The definitions of the symbols `entries` named `names`, in table order.
pub open spec fn symbol_defs(header: ElfHeader, entries: Seq<SymbolTableEntry>, names: Seq<String>) -> Seq<SymbolDefinition> {
    Seq::new(
        names.len(),
        |i: int|
            SymbolDefinition {
                position: native_32(header, entries[i].value) as usize,
                name: names[i],
                section_index: native_16(header, entries[i].header_index),
                _type: spec_symbol_type(entries[i].info)->0,
            },
    )
}

/// Whether `a` comes after `b` in symbol order.
fn symbol_after(a: &SymbolDefinition, b: &SymbolDefinition) -> (r: bool)
    ensures
        r == !symbol_le(*a, *b),
{
    a.position > b.position || (a.position == b.position && a.section_index > b.section_index)
}

/// The definitions of the symbols `sym_entries` named `names`, sorted by
/// position and then by section.
pub fn symbol_definitions(elf_header: &ElfHeader, sym_entries: &Vec<SymbolTableEntry>, names: Vec<String>) -> (r: Vec<SymbolDefinition>)
    requires
        known_order(*elf_header),
        names@.len() <= sym_entries@.len(),
        forall|k: int| 0 <= k < names@.len() ==> spec_symbol_type(#[trigger] sym_entries@[k].info) is Some,
    ensures
        symbols_sorted(r@),
        r@.to_multiset() == symbol_defs(*elf_header, sym_entries@, names@).to_multiset(),
{
    let ghost defs = symbol_defs(*elf_header, sym_entries@, names@);
    let mut sorted: Vec<SymbolDefinition> = Vec::new();
    let mut i: usize = 0;
    proof {
        assert(defs.take(0) =~= sorted@);
    }
    while i < names.len()
        invariant
            known_order(*elf_header),
            names@.len() <= sym_entries@.len(),
            forall|k: int| 0 <= k < names@.len() ==> spec_symbol_type(#[trigger] sym_entries@[k].info) is Some,
            defs == symbol_defs(*elf_header, sym_entries@, names@),
            i <= names@.len(),
            symbols_sorted(sorted@),
            sorted@.to_multiset() == defs.take(i as int).to_multiset(),
        decreases names@.len() - i,
    {
        let addr = to_native_endianness_32b(elf_header, &sym_entries[i].value) as usize;
        let index = to_native_endianness_16b(elf_header, &sym_entries[i].header_index);
        proof {
            assert(spec_symbol_type(sym_entries@[i as int].info) is Some);
        }
        let t = match symbol_type_of(&sym_entries[i]) {
            Some(t) => t,
            None => SymbolType::Notype,
        };
        let def = SymbolDefinition { position: addr, name: names[i].clone(), section_index: index, _type: t };
        proof {
            assert(def == defs[i as int]);
            assert(defs.take(i + 1) =~= defs.take(i as int).push(def));
        }
        let mut j = sorted.len();
        while j > 0 && symbol_after(&sorted[j - 1], &def)
            invariant
                j <= sorted@.len(),
                symbols_sorted(sorted@),
                forall|k: int| j <= k < sorted@.len() ==> !symbol_le(#[trigger] sorted@[k], def),
            decreases j,
        {
            j = j - 1;
        }
        let ghost before = sorted@;
        sorted.insert(j, def);
        proof {
            assert(sorted@ == before.insert(j as int, def));
            vstd::seq_lib::to_multiset_insert(before, j as int, def);
            vstd::seq_lib::to_multiset_build(defs.take(i as int), def);
            assert forall|a: int, b: int| 0 <= a < b < sorted@.len() implies symbol_le(#[trigger] sorted@[a], #[trigger] sorted@[b]) by {
                if b < j {
                    assert(symbol_le(before[a], before[b]));
                } else if b == j {
                    if j > 0 {
                        assert(symbol_le(before[j - 1], def));
                        if a < j - 1 {
                            assert(symbol_le(before[a], before[j - 1]));
                        }
                    }
                } else if a == j {
                    assert(!symbol_le(before[b - 1], def));
                } else if a < j {
                    assert(symbol_le(before[a], before[b - 1]));
                } else {
                    assert(symbol_le(before[a - 1], before[b - 1]));
                }
            }
        }
        i = i + 1;
    }
    proof {
        assert(defs.take(names@.len() as int) =~= defs);
    }
    sorted
}


/// The offsets of the first `k` symbols that are no mapping symbols, each
/// to its name; a later symbol at the same offset wins.
pub open spec fn offset_map_upto(header: ElfHeader, names: Seq<String>, entries: Seq<SymbolTableEntry>, k: int) -> Map<usize, String>
    decreases k,
{
    if k <= 0 {
        Map::empty()
    } else {
        let before = offset_map_upto(header, names, entries, k - 1);
        let name = names[k - 1];
        if name@ != "$d"@ && name@ != "$t"@ {
            before.insert(native_32(header, entries[k - 1].value) as usize, name)
        } else {
            before
        }
    }
}

/// The offsets of the symbols named `names`, but the mapping symbols, each
/// to its name.
pub fn build_symbol_byte_offset_map(elf_header: &ElfHeader, names: Vec<String>, sym_entries: &Vec<SymbolTableEntry>) -> (r: HashMap<usize, String>)
    requires
        known_order(*elf_header),
        names@.len() <= sym_entries@.len(),
    ensures
        r@ == offset_map_upto(*elf_header, names@, sym_entries@, names@.len() as int),
{
    broadcast use vstd::std_specs::hash::group_hash_axioms;
    let mut offset_map: HashMap<usize, String> = HashMap::new();
    let mut i: usize = 0;
    while i < names.len()
        invariant
            known_order(*elf_header),
            names@.len() <= sym_entries@.len(),
            i <= names@.len(),
            offset_map@ == offset_map_upto(*elf_header, names@, sym_entries@, i as int),
        decreases names@.len() - i,
    {
        if !is_segment_mapping_symbol(names[i].as_str()) {
            let offset: u32 = to_native_endianness_32b(elf_header, &sym_entries[i].value);
            offset_map.insert(offset as usize, names[i].clone());
        }
        i = i + 1;
    }
    offset_map
}


/// The index of the first text section among `hdrs`.
pub open spec fn first_text_section(header: ElfHeader, hdrs: Seq<SectionHeader>, i: int) -> Option<int>
    decreases hdrs.len() - i,
{
    if i < 0 || i >= hdrs.len() {
        None
    } else if section_type(header, hdrs[i]) == 1 && section_flags(header, hdrs[i]) == 6 {
        Some(i)
    } else {
        first_text_section(header, hdrs, i + 1)
    }
}

/// The symbols of the first text section, in table order; none where there
/// is no text section.
pub fn get_text_section_symbols(elf_header: &ElfHeader, sect_hdrs: &Vec<SectionHeader>, sym_entries: &Vec<SymbolTableEntry>) -> (r: Option<Vec<SymbolTableEntry>>)
    requires
        known_order(*elf_header),
    ensures
        match first_text_section(*elf_header, sect_hdrs@, 0) {
            Some(i) => r matches Some(v) && v@ == sym_entries@.filter(
                |e: SymbolTableEntry| native_16(*elf_header, e.header_index) == i as u16,
            ),
            None => r is None,
        },
{
    let mut i: usize = 0;
    while i < sect_hdrs.len()
        invariant
            known_order(*elf_header),
            i <= sect_hdrs@.len(),
            first_text_section(*elf_header, sect_hdrs@, 0) == first_text_section(*elf_header, sect_hdrs@, i as int),
        decreases sect_hdrs@.len() - i,
    {
        if is_text_section_hdr(elf_header, &sect_hdrs[i]) {
            let index = i as u16;
            let ghost keep = |e: SymbolTableEntry| native_16(*elf_header, e.header_index) == i as u16;
            let mut kept: Vec<SymbolTableEntry> = Vec::new();
            let mut k: usize = 0;
            while k < sym_entries.len()
                invariant
                    known_order(*elf_header),
                    index == i as u16,
                    keep == (|e: SymbolTableEntry| native_16(*elf_header, e.header_index) == i as u16),
                    k <= sym_entries@.len(),
                    kept@ == sym_entries@.take(k as int).filter(keep),
                decreases sym_entries@.len() - k,
            {
                let e = sym_entries[k];
                proof {
                    assert(sym_entries@.take(k as int + 1) == sym_entries@.take(k as int).push(e));
                    sym_entries@.take(k as int).lemma_filter_push(e, keep);
                }
                if to_native_endianness_16b(elf_header, &e.header_index) == index {
                    kept.push(e);
                }
                k = k + 1;
            }
            proof {
                assert(sym_entries@.take(sym_entries@.len() as int) =~= sym_entries@);
            }
            return Some(kept);
        }
        i = i + 1;
    }
    None
}

/// Where a literal pool starts, and where the next pool or code starts.
#[derive(Debug, Clone, Copy, PartialEq, Eq, Structural)]
pub struct Pool {
    pub start: usize,
    pub end: Option<usize>,
}

/// The positions of the data (`$d`) and code (`$t`) mapping symbols, each
/// in increasing order.
#[derive(Debug, Clone)]
pub struct LiteralPools {
    data_marks: Vec<usize>,
    text_marks: Vec<usize>,
}

/// `s` is in increasing order.
pub open spec fn ascending(s: Seq<usize>) -> bool {
    forall|i: int, j: int| 0 <= i < j < s.len() ==> #[trigger] s[i] <= #[trigger] s[j]
}

/// The positions of the symbols named `mark`, in symbol order.
pub open spec fn mark_positions(symbols: Seq<SymbolDefinition>, mark: Seq<char>) -> Seq<usize> {
    symbols.filter(|d: SymbolDefinition| d.name@ == mark).map_values(|d: SymbolDefinition| d.position)
}

/// Sorts `v` in increasing order.
fn sort_positions(v: &mut Vec<usize>)
    ensures
        ascending(final(v)@),
        final(v)@.to_multiset() == old(v)@.to_multiset(),
{
    let ghost input = v@;
    let mut sorted: Vec<usize> = Vec::new();
    let mut i: usize = 0;
    proof {
        assert(input.take(0) =~= sorted@);
    }
    while i < v.len()
        invariant
            v@ == input,
            i <= input.len(),
            ascending(sorted@),
            sorted@.to_multiset() == input.take(i as int).to_multiset(),
        decreases input.len() - i,
    {
        let x = v[i];
        let mut j = sorted.len();
        while j > 0 && sorted[j - 1] > x
            invariant
                j <= sorted@.len(),
                ascending(sorted@),
                forall|k: int| j <= k < sorted@.len() ==> #[trigger] sorted@[k] > x,
            decreases j,
        {
            j = j - 1;
        }
        let ghost before = sorted@;
        sorted.insert(j, x);
        proof {
            vstd::seq_lib::to_multiset_insert(before, j as int, x);
            vstd::seq_lib::to_multiset_build(input.take(i as int), x);
            assert(input.take(i + 1) =~= input.take(i as int).push(x));
            assert forall|a: int, b: int| 0 <= a < b < sorted@.len() implies #[trigger] sorted@[a] <= #[trigger] sorted@[b] by {
                if b < j {
                    assert(before[a] <= before[b]);
                } else if b == j {
                    if a < j - 1 {
                        assert(before[a] <= before[j - 1]);
                    }
                } else if a == j {
                    assert(before[b - 1] > x);
                } else if a < j {
                    assert(before[a] <= before[b - 1]);
                } else {
                    assert(before[a - 1] <= before[b - 1]);
                }
            }
        }
        i = i + 1;
    }
    proof {
        assert(input.take(input.len() as int) =~= input);
    }
    *v = sorted;
}

/// The value of the first element of `s` from `i` on that is above `a`.
pub open spec fn first_above(s: Seq<usize>, a: usize, i: int) -> Option<usize>
    decreases s.len() - i,
{
    if i < 0 || i >= s.len() {
        None
    } else if s[i] > a {
        Some(s[i])
    } else {
        first_above(s, a, i + 1)
    }
}

/// The index of the first element of `v` from `i` on that is above `a`.
fn index_above(v: &Vec<usize>, a: usize) -> (r: Option<usize>)
    ensures
        match r {
            Some(k) => k < v@.len() && first_above(v@, a, 0) == Some(v@[k as int]),
            None => first_above(v@, a, 0) is None,
        },
{
    let mut k: usize = 0;
    while k < v.len()
        invariant
            k <= v@.len(),
            first_above(v@, a, 0) == first_above(v@, a, k as int),
        decreases v@.len() - k,
    {
        if v[k] > a {
            return Some(k);
        }
        k = k + 1;
    }
    None
}

impl LiteralPools {
    /// The positions of the data marks, in increasing order.
    pub closed spec fn data(&self) -> Seq<usize> {
        self.data_marks@
    }

    /// The positions of the code marks, in increasing order.
    pub closed spec fn text(&self) -> Seq<usize> {
        self.text_marks@
    }

    /// The mapping symbols among `symbols`, their positions sorted.
    pub fn create_from_list(symbols: &Vec<SymbolDefinition>) -> (r: Self)
        ensures
            ascending(r.data()),
            ascending(r.text()),
            r.data().to_multiset() == mark_positions(symbols@, "$d"@).to_multiset(),
            r.text().to_multiset() == mark_positions(symbols@, "$t"@).to_multiset(),
    {
        let mut data_marks: Vec<usize> = Vec::new();
        let mut text_marks: Vec<usize> = Vec::new();
        let ghost is_data = |d: SymbolDefinition| d.name@ == "$d"@;
        let ghost is_text = |d: SymbolDefinition| d.name@ == "$t"@;
        let ghost pos = |d: SymbolDefinition| d.position;
        let mut i: usize = 0;
        while i < symbols.len()
            invariant
                i <= symbols@.len(),
                is_data == (|d: SymbolDefinition| d.name@ == "$d"@),
                is_text == (|d: SymbolDefinition| d.name@ == "$t"@),
                pos == (|d: SymbolDefinition| d.position),
                data_marks@ == symbols@.take(i as int).filter(is_data).map_values(pos),
                text_marks@ == symbols@.take(i as int).filter(is_text).map_values(pos),
            decreases symbols@.len() - i,
        {
            let d = &symbols[i];
            proof {
                assert(symbols@.take(i as int + 1) == symbols@.take(i as int).push(*d));
                symbols@.take(i as int).lemma_filter_push(*d, is_data);
                symbols@.take(i as int).lemma_filter_push(*d, is_text);
                reveal_strlit("$d");
                reveal_strlit("$t");
            }
            if d.name.as_str().unicode_len() == 2 && d.name.as_str().get_char(0) == '$' {
                let c = d.name.as_str().get_char(1);
                if c == 'd' {
                    proof {
                        assert(d.name@ =~= "$d"@);
                    }
                    data_marks.push(d.position);
                    proof {
                        assert(data_marks@ =~= symbols@.take(i as int + 1).filter(is_data).map_values(pos));
                    }
                } else if c == 't' {
                    proof {
                        assert(d.name@ =~= "$t"@);
                    }
                    text_marks.push(d.position);
                    proof {
                        assert(text_marks@ =~= symbols@.take(i as int + 1).filter(is_text).map_values(pos));
                    }
                }
            }
            proof {
                assert(data_marks@ =~= symbols@.take(i as int + 1).filter(is_data).map_values(pos));
                assert(text_marks@ =~= symbols@.take(i as int + 1).filter(is_text).map_values(pos));
            }
            i = i + 1;
        }
        proof {
            assert(symbols@.take(symbols@.len() as int) =~= symbols@);
        }
        sort_positions(&mut data_marks);
        sort_positions(&mut text_marks);
        Self { data_marks, text_marks }
    }

    /// The literal pool that a data mark at `address` starts: it ends at
    /// the next data or code mark, whichever comes first; none where no data
    /// mark is at `address`.
    pub fn get_pool_at(&self, address: usize) -> (r: Option<Pool>)
        ensures
            !self.data().contains(address) ==> r is None,
            self.data().contains(address) ==> r == Some(
                Pool {
                    start: address,
                    end: match (first_above(self.data(), address, 0), first_above(self.text(), address, 0)) {
                        (Some(d), Some(t)) => Some(if d < t { d } else { t }),
                        (Some(d), None) => Some(d),
                        (None, Some(t)) => Some(t),
                        (None, None) => None,
                    },
                },
            ),
    {
        let mut i: usize = 0;
        while i < self.data_marks.len()
            invariant
                i <= self.data_marks@.len(),
                forall|j: int| 0 <= j < i ==> self.data_marks@[j] != address,
            decreases self.data_marks@.len() - i,
        {
            if self.data_marks[i] == address {
                let next_d_mark = index_above(&self.data_marks, address);
                let next_t_mark = index_above(&self.text_marks, address);
                let end = match next_t_mark {
                    Some(t) => match next_d_mark {
                        Some(d) => {
                            let dv = self.data_marks[d];
                            let tv = self.text_marks[t];
                            Some(if dv < tv { dv } else { tv })
                        },
                        None => Some(self.text_marks[t]),
                    },
                    None => match next_d_mark {
                        Some(d) => Some(self.data_marks[d]),
                        None => None,
                    },
                };
                proof {
                    assert(self.data().contains(address));
                }
                return Some(Pool { start: self.data_marks[i], end });
            }
            i = i + 1;
        }
        None
    }
}

} // verus!
