use armageddon::ui::panel::{search_highlight, Highlight, Span};
use armageddon::system::simulator::DebugRequest;
use armageddon::ui::panel::{explorer_set_cast, explorer_update, register_label, shortcut, toggle_breakpoint, Key, Shortcut};
use armageddon::ui::window::ExplorerMap;
use armageddon::ui::{Cast, MemoryView};

#[test]
fn register_labels_in_either_base() {
    assert_eq!(register_label("r3", 255, true), "  r3: 0xff");
    assert_eq!(register_label("r3", 255, false), "  r3: 255");
    assert_eq!(register_label("r0", 0, true), "  r0: 0x0");
}

#[test]
fn clicking_a_line_toggles_its_breakpoint() {
    let mut bps = vec![0x10, 0x20];
    assert!(matches!(toggle_breakpoint(&mut bps, 0x30), DebugRequest::CreateBreakpoint(0x30)));
    assert_eq!(bps, vec![0x10, 0x20, 0x30]);
    assert!(matches!(toggle_breakpoint(&mut bps, 0x10), DebugRequest::DeleteBreakpoint(0x10)));
    assert_eq!(bps, vec![0x20, 0x30]);
    toggle_breakpoint(&mut bps, 0x40);
    toggle_breakpoint(&mut bps, 0x40);
    assert_eq!(bps, vec![0x20, 0x30]);
}

#[test]
fn explorer_fields_set_the_view() {
    let mut map = ExplorerMap::create();
    let mut update = false;
    let mut error = None;
    map.start_string(7, String::from("0x100"));
    explorer_update(&mut map, 7, &mut update, &mut error);
    assert!(update);
    assert!(error.is_none());
    assert_eq!(map.view_of(7).map(|v| (v.start, v.end, v.view_cast)), Some((0x100, 0x101, Cast::UWORD)));
    map.end_string(7, String::from("0x1FF"));
    explorer_update(&mut map, 7, &mut update, &mut error);
    assert_eq!(map.view_of(7).map(|v| (v.start, v.end)), Some((0x100, 0x1FF)));
    map.end_string(7, String::from("zz"));
    update = false;
    explorer_update(&mut map, 7, &mut update, &mut error);
    assert!(update);
    assert_eq!(error, Some(String::from("could not parse 'zz' as a hexadecimal")));
}

#[test]
fn explorer_without_a_start_reports_the_placeholder() {
    let mut map = ExplorerMap::create();
    let mut update = false;
    let mut error = None;
    explorer_update(&mut map, 1, &mut update, &mut error);
    assert!(!update);
    assert_eq!(error, Some(String::from("could not parse 'start (hex) ' as a hexadecimal")));
    assert!(map.view_of(1).is_none());
    map.end_string(1, String::from("0"));
    explorer_update(&mut map, 1, &mut update, &mut error);
    assert!(update);
    assert!(error.is_none());
    assert_eq!(map.view_of(1).map(|v| (v.start, v.end)), Some((0, 0)));
}

#[test]
fn explorer_cast_keeps_the_range() {
    let mut map = ExplorerMap::create();
    explorer_set_cast(&mut map, 2, Cast::IBYTE);
    assert_eq!(map.view_of(2).map(|v| (v.start, v.end, v.view_cast)), Some((0, 0xFF, Cast::IBYTE)));
    map.set_view(2, MemoryView { start: 8, end: 16, view_cast: Cast::UWORD });
    explorer_set_cast(&mut map, 2, Cast::UHALF);
    assert_eq!(map.view_of(2).map(|v| (v.start, v.end, v.view_cast)), Some((8, 16, Cast::UHALF)));
}

#[test]
fn keyboard_shortcuts() {
    assert_eq!(shortcut(Key::Enter, true, false, true), Some(Shortcut::CentreDisassembler));
    assert_eq!(shortcut(Key::Enter, true, false, false), None);
    assert_eq!(shortcut(Key::D, false, true, true), Some(Shortcut::ClearBreakpoints));
    assert_eq!(shortcut(Key::F, false, true, false), Some(Shortcut::OpenSearchBar));
    assert_eq!(shortcut(Key::Backspace, false, false, true), Some(Shortcut::CloseFocusedPane));
    assert_eq!(shortcut(Key::Other, true, true, true), None);
}

#[test]
fn splits_a_highlight_at_the_address_column() {
    // a match of 6 characters at column 8 of a line whose address ends at column 10
    let h = search_highlight(8, 6, 10);
    assert_eq!(h.address, Some(Span { start: 8, len: 2 }));
    assert_eq!(h.rest, Some(Span { start: 0, len: 4 }));
    // one that fits inside the address column
    let h = search_highlight(2, 3, 10);
    assert_eq!(h.address, Some(Span { start: 2, len: 3 }));
    assert_eq!(h.rest, None);
    // one after it, placed relative to the rest of the line
    let h = search_highlight(15, 4, 10);
    assert_eq!(h, Highlight { address: None, rest: Some(Span { start: 5, len: 4 }) });
}
