use armageddon::elf::decoder::{SymbolDefinition, SymbolType};
use armageddon::ui::{parse_hex, BkptInput};

fn symbol(position: usize, name: &str) -> SymbolDefinition {
    SymbolDefinition { position, name: String::from(name), section_index: 1, _type: SymbolType::Func }
}

#[test]
fn hex_with_and_without_prefix() {
    assert_eq!(parse_hex("0x1A"), Some(0x1A));
    assert_eq!(parse_hex("0x1a \n"), Some(0x1A));
    assert_eq!(parse_hex("1a"), Some(0x1A));
    assert_eq!(parse_hex("+ff"), Some(0xFF));
    assert_eq!(parse_hex("0xFFFFFFFF"), Some(u32::MAX));
}

#[test]
fn hex_refuses_what_is_no_number() {
    assert_eq!(parse_hex("0x"), None);
    assert_eq!(parse_hex(""), None);
    assert_eq!(parse_hex(" 0x10"), None);
    assert_eq!(parse_hex("1a "), None);
    assert_eq!(parse_hex("100000000"), None);
    assert_eq!(parse_hex("0x12g"), None);
    assert_eq!(parse_hex("-1"), None);
}

#[test]
fn breakpoint_by_address_or_name() {
    let symbols = vec![symbol(0x100, "$t"), symbol(0x100, "main"), symbol(0x200, "beef"), symbol(0x300, "main")];
    let by_name = BkptInput { pending_addr_or_symbol: String::from("  main ") };
    assert_eq!(by_name.try_get_addr(&symbols), Some(0x100));
    let by_hex = BkptInput { pending_addr_or_symbol: String::from("beef") };
    assert_eq!(by_hex.try_get_addr(&symbols), Some(0xBEEF));
    let mark = BkptInput { pending_addr_or_symbol: String::from("$t") };
    assert_eq!(mark.try_get_addr(&symbols), None);
    let unknown = BkptInput { pending_addr_or_symbol: String::from("loop") };
    assert_eq!(unknown.try_get_addr(&symbols), None);
}
