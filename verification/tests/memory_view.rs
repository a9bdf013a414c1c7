use armageddon::elf::decoder::{SymbolDefinition, SymbolType};
use armageddon::system::{Mode, System};
use armageddon::ui::{stringify_slice, Cast, SystemView};

fn symbol(position: usize, name: &str) -> SymbolDefinition {
    SymbolDefinition { position, name: String::from(name), section_index: 2, _type: SymbolType::Object }
}

#[test]
fn signed_words_are_labelled() {
    let bytes = [0x01, 0x00, 0x00, 0x80, 0xFF];
    let text = stringify_slice(0x100, &bytes, Cast::IWORD, &vec![symbol(0x100, "buf")]);
    assert_eq!(text, "<buf>:\n   0x00000100: -2147483647\n");
}

#[test]
fn unsigned_words_are_decimal() {
    let bytes = [0x01, 0x00, 0x00, 0x80];
    assert_eq!(stringify_slice(0x20000000, &bytes, Cast::UWORD, &vec![]), "   0x20000000: 2147483649\n");
}

#[test]
fn half_words_drop_an_odd_byte() {
    let bytes = [0x34, 0x12, 0xFF];
    assert_eq!(stringify_slice(0, &bytes, Cast::UHALF, &vec![]), "   0x00000000: 4660\n");
    assert_eq!(stringify_slice(0, &[0x00, 0x80], Cast::IHALF, &vec![]), "   0x00000000: -32768\n");
}

#[test]
fn bytes_one_a_line() {
    let bytes = [0xFF, 0x7F];
    assert_eq!(stringify_slice(0x1E, &bytes, Cast::IBYTE, &vec![]), "   0x0000001E: -1\n   0x0000001F: 127\n");
    assert_eq!(stringify_slice(0x1E, &bytes, Cast::UBYTE, &vec![symbol(0x1F, "last")]), "   0x0000001E: 255\n<last>:\n   0x0000001F: 127\n");
}

#[test]
fn system_state_text() {
    let mut sys = System::fill_with(&[0x00, 0xBF]);
    sys.mode = Mode::Thread;
    sys.control_register = [0, 0, 0, 0];
    sys.registers.generic = [5, 0, 0, 0, 0, 0, 0, 0, 0, 0, 10, 0, u32::MAX];
    sys.registers.sp_main = 0x2000_1000;
    sys.registers.sp_process = 0;
    sys.registers.lr = 0xFFFF_FFF9;
    sys.registers.pc = 8;
    sys.xpsr = [0, 0, 0, 1];
    let view = SystemView::from_system(&sys);
    assert_eq!(view.sp, 0x2000_1000);
    assert!(view.privileged);
    assert_eq!(view.raw_ir, 8);
    let mut expected = String::from("mode: Thread\n");
    for (k, v) in sys.registers.generic.iter().enumerate() {
        expected.push_str(&format!("r{}: {}\n", k, v));
    }
    expected.push_str("SP: 0x20001000    (MSP: 0x20001000)(PSP: 0x00000000)\nLR: 0xfffffff9\nPC: 0x00000008\nXPSR: 0x01000000");
    assert_eq!(view.text(), expected);
}
