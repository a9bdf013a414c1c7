use armageddon::binutils::BitField;
use armageddon::thumb::decode::{Opcode, B16};
use armageddon::thumb::decode_operands::{pretty_print, remove_everything_outside_brackets, Operands};
use armageddon::thumb::interpreter::{assembly_lines, disasm_text, try_assembly_lines, try_disasm_text, is_segment_mapping_symbol, offset_addr, peek, print_instruction, SymbolTable};
use armageddon::thumb::{DestRegister, Register, SrcRegister};
use armageddon::elf::decoder::{SymbolDefinition, SymbolType};

fn symbol(position: usize, name: &str, t: SymbolType) -> SymbolDefinition {
    SymbolDefinition { position, name: String::from(name), section_index: 1, _type: t }
}

#[test]
fn prints_an_instruction() {
    let ops = Some(Operands::DestImm8(DestRegister(0), BitField(2)));
    assert_eq!(print_instruction(0x10, &Opcode::_16Bit(B16::MOV_Imm8), &ops), "   0x00000010:   MOVS r0, #2");
    assert_eq!(print_instruction(0x1A, &Opcode::_16Bit(B16::NOP), &None), "   0x0000001A:   NOP");
}

#[test]
fn pretty_prints_operands() {
    let ops = Operands::LDR_Imm8(DestRegister(1), SrcRegister(15), BitField(8));
    assert_eq!(pretty_print(0x20, &ops), "r1, [PC, #8]    //@0x0000002c");
    let list = Operands::RegisterList(0x4003);
    assert_eq!(pretty_print(0, &list), "{r0,r1,LR}");
    let base = Operands::LoadableList(Register(1), 0x06);
    assert_eq!(pretty_print(0, &base), "r1,{r1,r2}");
    assert_eq!(pretty_print(0, &Operands::COND_BRANCH(-4)), ".-4");
    assert_eq!(pretty_print(0, &Operands::B_ALWAYS(6)), ". + 6");
}

#[test]
fn offsets_addresses() {
    assert_eq!(offset_addr(100, -4), 96);
    assert_eq!(offset_addr(100, 8), 108);
}

#[test]
fn recognises_mapping_symbols() {
    assert!(is_segment_mapping_symbol("$d"));
    assert!(is_segment_mapping_symbol("$t"));
    assert!(!is_segment_mapping_symbol("main"));
    assert!(!is_segment_mapping_symbol("$dx"));
}

#[test]
fn peeks_at_symbols() {
    let symbols = vec![
        symbol(0, "$t", SymbolType::Notype),
        symbol(0, "_start", SymbolType::Notype),
        symbol(9, "main", SymbolType::Func),
    ];
    assert_eq!(peek(&symbols, 0), Some(&String::from("_start")));
    assert_eq!(peek(&symbols, 8), Some(&String::from("main")));
    assert_eq!(peek(&symbols, 4), None);
}

#[test]
fn looks_symbols_up_in_order() {
    let symbols = vec![
        symbol(0, "_entry_point", SymbolType::Notype),
        symbol(4, "$d", SymbolType::Notype),
        symbol(8, "pl_end", SymbolType::Notype),
    ];
    let mut table = SymbolTable::create(&symbols);
    assert_eq!(table.lookup(0), Some(&String::from("_entry_point")));
    assert_eq!(table.lookup(4), None);
    assert_eq!(table.lookup(8), Some(&String::from("pl_end")));
    assert_eq!(table.lookup(10), None);
}

#[test]
fn disassembles_code_and_pools() {
    // MOVS r0,#2 ; B . ; then a literal pool of one word
    let code = [0x02, 0x20, 0xFE, 0xE7, 0x78, 0x56, 0x34, 0x12];
    let symbols = vec![
        symbol(0, "$t", SymbolType::Notype),
        symbol(0, "_start", SymbolType::Func),
        symbol(4, "$d", SymbolType::Notype),
    ];
    let lines = disasm_text(&code, 0, &symbols);
    assert_eq!(lines.len(), 3);
    assert_eq!(lines[0], "\n0x00000000: <_start>:\n   0x00000000:   MOVS r0, #2");
    assert_eq!(lines[1], "   0x00000002:   BAL .");
    assert_eq!(lines[2], "   0x00000004: .4byte 0x12345678");
}

#[test]
fn prints_pools_with_an_indent() {
    // MOVS r0,#2 ; B . ; then a labelled literal pool of three bytes, and one of a half word
    let code = [0x02, 0x20, 0xFE, 0xE7, 0x01, 0x02, 0x03, 0xCD, 0xAB];
    let symbols = vec![
        symbol(0, "$t", SymbolType::Notype),
        symbol(4, "$d", SymbolType::Notype),
        symbol(4, "table", SymbolType::Object),
        symbol(7, "$d", SymbolType::Notype),
    ];
    let printed = assembly_lines(&code, 0, &symbols);
    assert_eq!(printed.len(), 4);
    assert_eq!(printed[1], "   0x00000002:   BAL .");
    assert_eq!(printed[2], "\n0x00000004 <table>:\n   0x00000004:   .byte 0x01  0x02  0x03 ");
    assert_eq!(printed[3], "   0x00000007:   .2byte 0xabcd");
    let listed = disasm_text(&code, 0, &symbols);
    assert_eq!(listed[2], "\n0x00000004: <table>:\n   0x00000004: .byte 0x01  0x02  0x03 ");
    assert_eq!(listed[3], "   0x00000007: .2byte 0xabcd");
}

#[test]
fn keeps_what_stands_in_brackets() {
    assert_eq!(remove_everything_outside_brackets("A(bc)d(e)"), "bce");
    assert_eq!(remove_everything_outside_brackets("Byte(Literal(5))"), "Literal");
    assert_eq!(remove_everything_outside_brackets("no brackets"), "");
}

#[test]
fn checked_listing_agrees_where_the_code_can_be_listed() {
    let code = [0x02, 0x20, 0xFE, 0xE7, 0x78, 0x56, 0x34, 0x12];
    let symbols = vec![
        symbol(0, "$t", SymbolType::Notype),
        symbol(0, "_start", SymbolType::Func),
        symbol(4, "$d", SymbolType::Notype),
    ];
    assert_eq!(try_disasm_text(&code, 0, &symbols), Some(disasm_text(&code, 0, &symbols)));
    assert_eq!(try_assembly_lines(&code, 0, &symbols), Some(assembly_lines(&code, 0, &symbols)));
}

#[test]
fn checked_listing_refuses_what_cannot_be_listed() {
    let symbols = vec![symbol(0, "$t", SymbolType::Notype), symbol(0, "_start", SymbolType::Func)];
    // a single byte ends inside an instruction
    assert_eq!(try_disasm_text(&[0x02], 0, &symbols), None);
    // the first half of a 32 bit instruction with nothing after it
    assert_eq!(try_disasm_text(&[0x00, 0xF0], 0, &symbols), None);
    // an even address before the first symbol
    let late = vec![symbol(8, "late", SymbolType::Func)];
    assert_eq!(try_assembly_lines(&[0x02, 0x20], 0, &late), None);
}
