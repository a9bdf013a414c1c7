//! The ELF reader on object files laid out as the GNU tools lay them out:
//! each test builds, in memory, the file that the assembler (and, where
//! named, the linker) makes of the source it quotes.
use armageddon::elf::decoder::{
    build_symbol_byte_offset_map, check_header, get_entry_point_offset, get_string_table_section_hdr,
    get_text_section_symbols, is_symbol_table_section_hdr, is_text_section_hdr, load_sections, loadable_sections,
    parse_section_headers, parse_symbol_entries, select_symbols, symbol_definitions, symbol_names,
    symbol_table_extent, text_section_extent, to_native_endianness_16b, to_native_endianness_32b, ElfHeader,
    ElfError, LiteralPools, LoadType, SectionHeader, SymbolDefinition, SymbolTableEntry, SymbolType,
};
use armageddon::thumb::interpreter::SymbolTable;

const SHT_PROGBITS: u32 = 1;
const SHT_SYMTAB: u32 = 2;
const SHT_STRTAB: u32 = 3;
const SHT_NOBITS: u32 = 8;
const STB_LOCAL_NOTYPE: u8 = 0x00;
const STB_GLOBAL_NOTYPE: u8 = 0x10;
const STT_SECTION: u8 = 0x03;

struct Section {
    name: &'static str,
    kind: u32,
    flags: u32,
    addr: u32,
    data: Vec<u8>,
    size: u32,
    link: u32,
    info: u32,
    entsize: u32,
}

fn section(name: &'static str, kind: u32, flags: u32, addr: u32, data: Vec<u8>) -> Section {
    let size = data.len() as u32;
    Section { name, kind, flags, addr, data, size, link: 0, info: 0, entsize: 0 }
}

fn put16(b: &mut [u8], at: usize, v: u16) {
    b[at..at + 2].copy_from_slice(&v.to_le_bytes());
}

fn put32(b: &mut [u8], at: usize, v: u32) {
    b[at..at + 4].copy_from_slice(&v.to_le_bytes());
}

/// A little endian ELF file of type `elf_type` with the given sections after
/// the null one, and the section name table last.
fn elf_image(elf_type: u16, entry: u32, sections: Vec<Section>) -> Vec<u8> {
    let mut shstr = vec![0u8];
    let mut names = Vec::new();
    for s in &sections {
        names.push(shstr.len() as u32);
        shstr.extend_from_slice(s.name.as_bytes());
        shstr.push(0);
    }
    let shstr_name = shstr.len() as u32;
    shstr.extend_from_slice(b".shstrtab\0");

    let mut image = vec![0u8; 52];
    let mut offsets = Vec::new();
    for s in &sections {
        while image.len() % 4 != 0 {
            image.push(0);
        }
        offsets.push(image.len() as u32);
        if s.kind != SHT_NOBITS {
            image.extend_from_slice(&s.data);
        }
    }
    let shstr_offset = image.len() as u32;
    image.extend_from_slice(&shstr);
    while image.len() % 4 != 0 {
        image.push(0);
    }
    let shoff = image.len() as u32;
    image.extend_from_slice(&[0u8; 40]);
    for (i, s) in sections.iter().enumerate() {
        let mut h = [0u8; 40];
        put32(&mut h, 0, names[i]);
        put32(&mut h, 4, s.kind);
        put32(&mut h, 8, s.flags);
        put32(&mut h, 12, s.addr);
        put32(&mut h, 16, offsets[i]);
        put32(&mut h, 20, s.size);
        put32(&mut h, 24, s.link);
        put32(&mut h, 28, s.info);
        put32(&mut h, 32, 4);
        put32(&mut h, 36, s.entsize);
        image.extend_from_slice(&h);
    }
    let mut h = [0u8; 40];
    put32(&mut h, 0, shstr_name);
    put32(&mut h, 4, SHT_STRTAB);
    put32(&mut h, 16, shstr_offset);
    put32(&mut h, 20, shstr.len() as u32);
    put32(&mut h, 32, 1);
    image.extend_from_slice(&h);

    image[0..4].copy_from_slice(&[0x7f, b'E', b'L', b'F']);
    image[4] = 1;
    image[5] = 1;
    image[6] = 1;
    put16(&mut image, 16, elf_type);
    put16(&mut image, 18, 40);
    put32(&mut image, 20, 1);
    put32(&mut image, 24, entry);
    put32(&mut image, 32, shoff);
    put32(&mut image, 36, 0x0500_0000);
    put16(&mut image, 40, 52);
    put16(&mut image, 46, 40);
    put16(&mut image, 48, sections.len() as u16 + 2);
    put16(&mut image, 50, sections.len() as u16 + 1);
    image
}

/// A symbol table and its string table: each symbol by name, value, info
/// and section; the null symbol first.
fn symbol_tables(symbols: &[(&str, u32, u8, u16)]) -> (Vec<u8>, Vec<u8>) {
    let mut strtab = vec![0u8];
    let mut symtab = vec![0u8; 16];
    for (name, value, info, shndx) in symbols {
        let name_index = if name.is_empty() {
            0
        } else {
            let at = strtab.len() as u32;
            strtab.extend_from_slice(name.as_bytes());
            strtab.push(0);
            at
        };
        let mut e = [0u8; 16];
        put32(&mut e, 0, name_index);
        put32(&mut e, 4, *value);
        e[12] = *info;
        put16(&mut e, 14, *shndx);
        symtab.extend_from_slice(&e);
    }
    (symtab, strtab)
}

/// The sections of an object file: code, data, zeroed data, then the
/// symbol and string tables.
fn object_sections(text: Vec<u8>, data: Vec<u8>, bss: u32, addrs: (u32, u32, u32), symbols: &[(&str, u32, u8, u16)], locals: u32) -> Vec<Section> {
    let (symtab, strtab) = symbol_tables(symbols);
    let mut bss_section = section(".bss", SHT_NOBITS, 3, addrs.2, Vec::new());
    bss_section.size = bss;
    let mut sym = section(".symtab", SHT_SYMTAB, 0, 0, symtab);
    sym.link = 5;
    sym.info = locals;
    sym.entsize = 16;
    vec![
        section(".text", SHT_PROGBITS, 6, addrs.0, text),
        section(".data", SHT_PROGBITS, 3, addrs.1, data),
        bss_section,
        sym,
        section(".strtab", SHT_STRTAB, 0, 0, strtab),
    ]
}

fn words(v: &[u16]) -> Vec<u8> {
    v.iter().flat_map(|h| h.to_le_bytes()).collect()
}

/// `add.o`: `ADD r0,r1,#7 ; ADD r7,r1,#5 ; ADD r0,#255 ; ADD r2,#255`.
fn add_object() -> Vec<u8> {
    let symbols = [
        ("", 0, STT_SECTION, 1),
        ("", 0, STT_SECTION, 2),
        ("", 0, STT_SECTION, 3),
        ("$t", 0, STB_LOCAL_NOTYPE, 1),
    ];
    elf_image(1, 0, object_sections(words(&[0x1DC8, 0x1D4F, 0x30FF, 0x32FF]), Vec::new(), 0, (0, 0, 0), &symbols, 5))
}

fn header_of(image: &[u8]) -> ElfHeader {
    let h = ElfHeader::from_bytes(image);
    check_header(&h).unwrap();
    h
}

fn section_headers_of(image: &[u8], h: &ElfHeader) -> Vec<SectionHeader> {
    let shoff = to_native_endianness_32b(h, &h.section_header_offset) as usize;
    let shnum = to_native_endianness_16b(h, &h.num_section_header_entries) as usize;
    parse_section_headers(&image[shoff..shoff + shnum * 40], shnum)
}

fn bytes_of<'a>(image: &'a [u8], h: &ElfHeader, s: &SectionHeader) -> &'a [u8] {
    let offset = to_native_endianness_32b(h, &s.offset_of_entries_in_bytes) as usize;
    let size = to_native_endianness_32b(h, &s.section_size_in_bytes) as usize;
    &image[offset..offset + size]
}

fn symbols_of(image: &[u8], h: &ElfHeader, hdrs: &Vec<SectionHeader>) -> Vec<SymbolTableEntry> {
    let symtab: Vec<&SectionHeader> = hdrs.iter().filter(|hdr| is_symbol_table_section_hdr(h, hdr)).collect();
    let (offset, count) = symbol_table_extent(h, symtab[0]).unwrap().unwrap();
    let entries = parse_symbol_entries(&image[offset as usize..offset as usize + count as usize * 16], count as usize);
    let kept = select_symbols(h, entries);
    assert!(!kept.is_empty());
    kept
}

#[test]
fn should_get_header() {
    let image = add_object();
    let header = ElfHeader::from_bytes(&image);
    assert!(check_header(&header).is_ok());
}

#[test]
fn should_get_all_section_headers() {
    let image = add_object();
    let elf_header = header_of(&image);
    let section_headers = section_headers_of(&image, &elf_header);
    assert!(!section_headers.is_empty());
}

#[test]
fn should_get_text_section_hdr() {
    let image = add_object();
    let elf_header = header_of(&image);
    let section_headers = section_headers_of(&image, &elf_header);
    assert!(!section_headers.is_empty());
    let text_sect_hdr: Vec<&SectionHeader> =
        section_headers.iter().filter(|hdr| is_text_section_hdr(&elf_header, hdr)).collect();
    assert_eq!(text_sect_hdr.len(), 1);
}

#[test]
fn should_read_text_section() {
    let image = add_object();
    let elf_header = header_of(&image);
    let section_headers = section_headers_of(&image, &elf_header);
    assert!(!section_headers.is_empty());
    let text_sect_hdr: Vec<&SectionHeader> =
        section_headers.iter().filter(|hdr| is_text_section_hdr(&elf_header, hdr)).collect();
    assert_eq!(text_sect_hdr.len(), 1);
    let (offset, len) = text_section_extent(&elf_header, text_sect_hdr[0]).unwrap().unwrap();
    let text_section = &image[offset as usize..(offset + len) as usize];
    assert!(!text_section.is_empty());
    assert_eq!(text_section, &words(&[0x1DC8, 0x1D4F, 0x30FF, 0x32FF])[..]);
}

#[test]
fn should_get_local_symbols() {
    // _some_label: ADD r0,#12 ; ADC r0,r1 ; LDM r7!, {r1,r2,r3} ; WFE
    // _some_other_label: NOP
    // _la_foo: WFE
    // .data: _msg: .string "Hello word"
    let text = words(&[0x300C, 0x4148, 0xCF0E, 0xBF20, 0xBF00, 0xBF20]);
    let symbols = [
        ("_some_label", 0, STB_LOCAL_NOTYPE, 1),
        ("_some_other_label", 8, STB_LOCAL_NOTYPE, 1),
        ("_la_foo", 10, STB_LOCAL_NOTYPE, 1),
        ("$t", 0, STB_LOCAL_NOTYPE, 1),
        ("_msg", 0, STB_LOCAL_NOTYPE, 2),
        ("$d", 0, STB_LOCAL_NOTYPE, 2),
        ("", 0, STT_SECTION, 1),
        ("", 0, STT_SECTION, 2),
        ("", 0, STT_SECTION, 3),
    ];
    let image = elf_image(1, 0, object_sections(text, b"Hello word\0".to_vec(), 0, (0, 0, 0), &symbols, 10));
    let elf_header = header_of(&image);
    assert_eq!(0, get_entry_point_offset(&elf_header), "elf hasn't been linked so it should be 0");
    let section_headers = section_headers_of(&image, &elf_header);
    assert!(!section_headers.is_empty());
    let strtab_idx = get_string_table_section_hdr(&elf_header, &section_headers).unwrap();
    let str_table = bytes_of(&image, &elf_header, &section_headers[strtab_idx]);
    let sym_entries = symbols_of(&image, &elf_header, &section_headers);
    let text_section_symbols = get_text_section_symbols(&elf_header, &section_headers, &sym_entries).unwrap();
    let names = symbol_names(&elf_header, &text_section_symbols, str_table);
    assert!(names.contains(&String::from("_some_label")));
    assert!(names.contains(&String::from("_some_other_label")));
    assert!(names.contains(&String::from("_la_foo")));
    let text_sect_offset_map = build_symbol_byte_offset_map(&elf_header, names, &sym_entries);
    assert_eq!(text_sect_offset_map.get(&0), Some(&String::from("_some_label")));
    assert_eq!(text_sect_offset_map.get(&8), Some(&String::from("_some_other_label")));
    assert_eq!(text_sect_offset_map.get(&10), Some(&String::from("_la_foo")));
    assert_eq!(text_sect_offset_map.values().position(|v| v.eq("_msg")), None);
    assert_eq!(text_sect_offset_map.values().position(|v| v.eq("$t")), None);
    assert_eq!(text_sect_offset_map.values().position(|v| v.eq("$d")), None);
}

#[test]
fn should_map_sections() {
    // .text: _entry_point: NOP ; NOP   .data: .4byte 70,32,12,700   .bss: .lcomm zero_counter_v, 8
    // linked with .text at 0, .data at 0x1000 and .bss at 0x2000
    let text_offset: usize = 0;
    let data_offset: usize = 0x1000;
    let bss_offset: usize = 0x2000;
    let data: Vec<u8> = [70u32, 32, 12, 700].iter().flat_map(|w| w.to_le_bytes()).collect();
    let symbols = [
        ("$t", 0, STB_LOCAL_NOTYPE, 1),
        ("$d", data_offset as u32, STB_LOCAL_NOTYPE, 2),
        ("zero_counter_v", bss_offset as u32, 0x01, 3),
        ("_entry_point", 0, STB_GLOBAL_NOTYPE, 1),
    ];
    let image = elf_image(
        2,
        0,
        object_sections(words(&[0xBF00, 0xBF00]), data, 8, (0, data_offset as u32, bss_offset as u32), &symbols, 4),
    );
    let elf_header = header_of(&image);
    assert_eq!(text_offset, get_entry_point_offset(&elf_header), "entry point offset should be at the beginning of text segment");
    let section_headers = section_headers_of(&image, &elf_header);
    assert!(!section_headers.is_empty());
    let names = bytes_of(&image, &elf_header, &section_headers[section_headers.len() - 1]);
    let sects = loadable_sections(&elf_header, &section_headers, names);
    let t = sects.iter().position(|ld| ld.name.eq(".text")).unwrap();
    let d = sects.iter().position(|ld| ld.name.eq(".data")).unwrap();
    let b = sects.iter().position(|ld| ld.name.eq(".bss")).unwrap();
    assert_eq!(sects[t].name, String::from(".text"));
    assert_eq!(sects[t].start, text_offset as u32);
    assert_eq!(sects[t].len, 4);
    assert_eq!(sects[t].load, LoadType::PROGBITS);
    assert_eq!(sects[d].name, String::from(".data"));
    assert_eq!(sects[d].start, data_offset as u32);
    assert_eq!(sects[d].len, 4 * 4);
    assert_eq!(sects[d].load, LoadType::PROGBITS);
    assert_eq!(sects[b].name, String::from(".bss"));
    assert_eq!(sects[b].start, bss_offset as u32);
    assert_eq!(sects[b].len, 8);
    assert_eq!(sects[b].load, LoadType::NOBITS);
}

#[test]
fn should_get_all_symbols() {
    // .text: _entry_point: LDR r0, =_boot_magic ; B pl_end ; .pool ; pl_end: NOP
    // .data: _boot_magic: .4byte 70,32,12,700
    // linked with .text at 0 and .data at 0x1000
    let text_offset: usize = 0;
    let data_offset: usize = 0x1000;
    let mut text = words(&[0x4800, 0xE001]);
    text.extend_from_slice(&(data_offset as u32).to_le_bytes());
    text.extend_from_slice(&words(&[0xBF00]));
    let data: Vec<u8> = [70u32, 32, 12, 700].iter().flat_map(|w| w.to_le_bytes()).collect();
    let symbols = [
        ("$t", 0, STB_LOCAL_NOTYPE, 1),
        ("pl_end", 8, STB_LOCAL_NOTYPE, 1),
        ("$d", 4, STB_LOCAL_NOTYPE, 1),
        ("$t", 8, STB_LOCAL_NOTYPE, 1),
        ("_boot_magic", data_offset as u32, STB_LOCAL_NOTYPE, 2),
        ("$d", data_offset as u32, STB_LOCAL_NOTYPE, 2),
        ("_entry_point", 0, STB_GLOBAL_NOTYPE, 1),
    ];
    let image = elf_image(2, 0, object_sections(text, data, 0, (0, data_offset as u32, 0x2000), &symbols, 7));
    let elf_header = header_of(&image);
    assert_eq!(text_offset, get_entry_point_offset(&elf_header), "entry point offset should be at the beginning of text segment");
    let section_headers = section_headers_of(&image, &elf_header);
    assert!(!section_headers.is_empty());
    let strtab_idx = get_string_table_section_hdr(&elf_header, &section_headers).unwrap();
    let str_table = bytes_of(&image, &elf_header, &section_headers[strtab_idx]);
    let sym_entries = symbols_of(&image, &elf_header, &section_headers);
    let names = symbol_names(&elf_header, &sym_entries, str_table);
    let symbols: Vec<SymbolDefinition> = symbol_definitions(&elf_header, &sym_entries, names);
    let lit_pools = LiteralPools::create_from_list(&symbols);
    let pool = lit_pools.get_pool_at(4).unwrap();
    assert_eq!(pool.start, 4);
    assert_eq!(pool.end.unwrap(), 8);
    let mut sym_table = SymbolTable::create(&symbols);
    assert_eq!(sym_table.lookup(0), Some(&String::from("_entry_point")));
    assert_eq!(sym_table.lookup(8), Some(&String::from("pl_end")));
    assert_eq!(sym_table.lookup(data_offset), Some(&String::from("_boot_magic")));
    assert_eq!(sym_table.lookup(data_offset + 2), None);
    let has = |position: usize, name: &str, section_index: u16| {
        symbols.iter().any(|s| {
            s.position == position && s.name == name && s.section_index == section_index && matches!(s._type, SymbolType::Notype)
        })
    };
    assert!(has(text_offset, "_entry_point", 1));
    assert!(has(data_offset, "_boot_magic", 2));
    assert!(has(8, "pl_end", 1));
}

#[test]
fn loads_the_bytes_of_each_section() {
    let data: Vec<u8> = [70u32, 32, 12, 700].iter().flat_map(|w| w.to_le_bytes()).collect();
    let symbols = [("_entry_point", 0, STB_GLOBAL_NOTYPE, 1)];
    let image = elf_image(2, 0, object_sections(words(&[0xBF00, 0xBF00]), data.clone(), 8, (0, 0x1000, 0x2000), &symbols, 1));
    let elf_header = header_of(&image);
    let section_headers = section_headers_of(&image, &elf_header);
    let names = bytes_of(&image, &elf_header, &section_headers[section_headers.len() - 1]);
    let loaded = load_sections(&elf_header, &section_headers, names, &image).unwrap();
    assert_eq!(loaded.len(), 3);
    assert_eq!(loaded[0], (String::from(".text"), 0, vec![0x00, 0xBF, 0x00, 0xBF]));
    assert_eq!(loaded[1], (String::from(".data"), 0x1000, data));
    assert_eq!(loaded[2], (String::from(".bss"), 0x2000, vec![0u8; 8]));

    let mut moved = image.clone();
    let text_offset = to_native_endianness_32b(&elf_header, &section_headers[1].offset_of_entries_in_bytes) as usize;
    let shoff = to_native_endianness_32b(&elf_header, &elf_header.section_header_offset) as usize;
    // the header of .text now places its bytes past the end of the file
    moved[shoff + 40 + 16..shoff + 40 + 20].copy_from_slice(&(image.len() as u32).to_le_bytes());
    let hdrs = section_headers_of(&moved, &elf_header);
    assert!(text_offset < image.len());
    assert!(matches!(load_sections(&elf_header, &hdrs, names, &moved), Err(ElfError::FileIO(_))));
}
