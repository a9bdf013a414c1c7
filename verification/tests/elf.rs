use armageddon::elf::decoder::{
    build_symbol_byte_offset_map, check_header, get_entry_point_offset, is_text_section_hdr, parse_section_headers,
    parse_symbol_entries, read_name, select_symbols, symbol_definitions, symbol_names, ElfError, ElfHeader,
    LiteralPools, Pool, SymbolDefinition, SymbolType,
};

fn header_bytes(order: u8) -> Vec<u8> {
    let mut b = vec![0u8; 52];
    b[0] = 0x7f;
    b[1] = b'E';
    b[2] = b'L';
    b[3] = b'F';
    b[4] = 1;
    b[5] = order;
    b[24] = 0x41;
    b[25] = 0x01;
    b
}

#[test]
fn checks_the_header() {
    let h = ElfHeader::from_bytes(&header_bytes(1));
    assert!(check_header(&h).is_ok());
    assert_eq!(get_entry_point_offset(&h), 0x141);
    let unknown_order = ElfHeader::from_bytes(&header_bytes(0));
    assert!(matches!(check_header(&unknown_order), Err(ElfError::Arch(_))));
    let mut bad = header_bytes(1);
    bad[1] = b'X';
    assert!(matches!(check_header(&ElfHeader::from_bytes(&bad)), Err(ElfError::FileIO(_))));
    let big = ElfHeader::from_bytes(&header_bytes(2));
    assert_eq!(get_entry_point_offset(&big), 0x4101_0000);
}

#[test]
fn finds_the_text_section() {
    let h = ElfHeader::from_bytes(&header_bytes(1));
    let mut table = vec![0u8; 80];
    table[44] = 1;
    table[48] = 6;
    let hdrs = parse_section_headers(&table, 2);
    assert!(!is_text_section_hdr(&h, &hdrs[0]));
    assert!(is_text_section_hdr(&h, &hdrs[1]));
}

#[test]
fn reads_symbols() {
    let h = ElfHeader::from_bytes(&header_bytes(1));
    let strings = b"\0main\0$d\0".to_vec();
    assert_eq!(read_name(&strings, 1), "main");
    let mut raw = vec![0u8; 48];
    // a function at 0x20 named "main"
    raw[16] = 1;
    raw[20] = 0x20;
    raw[28] = 0x12;
    raw[30] = 1;
    // a data mark at 0x10
    raw[32] = 6;
    raw[36] = 0x10;
    raw[44] = 0x00;
    raw[46] = 1;
    let entries = parse_symbol_entries(&raw, 3);
    let kept = select_symbols(&h, entries);
    assert_eq!(kept.len(), 2);
    let names = symbol_names(&h, &kept, &strings);
    assert_eq!(names, vec![String::from("main"), String::from("$d")]);
    let defs = symbol_definitions(&h, &kept, names.clone());
    assert_eq!(defs[0].position, 0x10);
    assert_eq!(defs[1].position, 0x20);
    assert!(matches!(defs[1]._type, SymbolType::Func));
    let map = build_symbol_byte_offset_map(&h, names, &kept);
    assert_eq!(map.len(), 1);
    assert_eq!(map[&0x20], "main");
}

#[test]
fn finds_literal_pools() {
    let mark = |position: usize, name: &str| SymbolDefinition {
        position,
        name: String::from(name),
        section_index: 1,
        _type: SymbolType::Notype,
    };
    let pools = LiteralPools::create_from_list(&vec![mark(20, "$d"), mark(8, "$d"), mark(12, "$t"), mark(0, "$t")]);
    assert_eq!(pools.get_pool_at(8), Some(Pool { start: 8, end: Some(12) }));
    assert_eq!(pools.get_pool_at(20), Some(Pool { start: 20, end: None }));
    assert_eq!(pools.get_pool_at(12), None);
}
