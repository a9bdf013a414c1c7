use armageddon::ui::window::{get_pc_text_position, ExplorerMap, Window};
use armageddon::ui::{Cast, MemoryView};

#[test]
fn panes_keep_their_scroll_ids() {
    let mut w = Window::create();
    assert_eq!(w.get_focused_pane(), None);
    assert_eq!(w.add_pane(3, 70), 70);
    assert_eq!(w.add_pane(5, 71), 71);
    assert_eq!(w.get_focused_pane(), Some(71));
    w.focus_if_present(3);
    assert_eq!(w.get_focused_pane(), Some(70));
    w.focus_if_present(9);
    assert_eq!(w.get_focused_pane(), Some(70));
    assert_eq!(w.id_of(5), Some(71));
    assert_eq!(w.id_of(9), None);
}

#[test]
fn removing_a_pane_forgets_its_offset() {
    let mut w = Window::create();
    w.add_pane(1, 10);
    w.add_pane(2, 20);
    w.record_line_offset(10, 42);
    w.record_line_offset(20, 7);
    w.record_line_offset(20, 8);
    assert_eq!(w.scroll_position(10), Some(42));
    assert_eq!(w.scroll_position(20), Some(8));
    w.remove_pane(1);
    assert_eq!(w.scroll_position(10), None);
    assert_eq!(w.id_of(1), None);
    assert_eq!(w.scroll_position(20), Some(8));
    w.remove_pane(1);
    assert_eq!(w.id_of(2), Some(20));
}

#[test]
fn explorer_panes_hold_views_and_typed_addresses() {
    let mut m = ExplorerMap::create();
    assert!(m.view_of(4).is_none());
    m.set_view(4, MemoryView { start: 0x100, end: 0x1FF, view_cast: Cast::IHALF });
    assert_eq!(m.view_of(4).map(|v| (v.start, v.end, v.view_cast)), Some((0x100, 0x1FF, Cast::IHALF)));
    m.start_string(4, String::from("0x100"));
    m.end_string(4, String::from("0x1ff"));
    assert_eq!(m.get_start(4), Some(String::from("0x100")));
    assert_eq!(m.get_end(4), Some(String::from("0x1ff")));
    assert_eq!(m.get_end(5), None);
    m.remove(4);
    assert!(m.view_of(4).is_none());
    assert_eq!(m.get_start(4), None);
    assert_eq!(m.get_end(4), None);
}

#[test]
fn finds_the_line_of_the_program_counter() {
    let text = String::from("\n0x00000000: <_start>:\n   0x00000000:   MOVS r0, #2\n   0x00000002:   BAL .\n");
    assert_eq!(get_pc_text_position(&text, 2), (3, 4));
    assert_eq!(get_pc_text_position(&text, 0), (2, 4));
    assert_eq!(get_pc_text_position(&text, 8), (0, 4));
    assert_eq!(get_pc_text_position(&String::from("0x0x10 : x\n \t\n10"), 16), (2, 3));
}
