use armageddon::thumb::interpreter::{find_bin, find_string, find_string_position, TextPosition};
use armageddon::ui::searchbar::{Kind, SearchBar};
use armageddon::ui::window::line_buffer;
use armageddon::system::trace::Trace;

#[test]
fn occurrences_do_not_overlap() {
    assert_eq!(find_bin(&vec![1, 1, 1, 1, 1], &vec![1, 1]), vec![0, 2]);
    assert_eq!(find_string("aaaa", "aa"), vec![0, 2]);
    assert_eq!(find_string("abc", ""), vec![1, 2, 3]);
}

#[test]
fn finds_positions_by_line() {
    let found = find_string_position("abc\nxabc\r\nzz\nabab", "ab");
    assert_eq!(
        found,
        vec![
            TextPosition { line_number: 0, line_offset: 0 },
            TextPosition { line_number: 1, line_offset: 1 },
            TextPosition { line_number: 3, line_offset: 0 },
        ]
    );
    assert_eq!(find_string_position("abc", ""), vec![]);
}

#[test]
fn search_bar_walks_its_matches() {
    let mut bar = SearchBar::create();
    assert_eq!(bar.help(), "(Code search): Search the disassembled text");
    bar.target = String::from("MOV");
    bar.find("MOVS r0\nADD\nMOV r1").unwrap();
    assert_eq!(bar.focus_next(), Some(0));
    assert!(bar.is_focused(&TextPosition { line_number: 0, line_offset: 0 }));
    assert_eq!(bar.focus_next(), Some(0));
    assert_eq!(bar.get_focused_search_result(), Some(TextPosition { line_number: 2, line_offset: 0 }));
    assert!(bar.is_focused(&TextPosition { line_number: 2, line_offset: 0 }));
    assert_eq!(bar.focus_next(), Some(1));
    assert_eq!(bar.get_focused_search_result(), Some(TextPosition { line_number: 0, line_offset: 0 }));
    assert_eq!(bar.next_text_occurance(), Some(TextPosition { line_number: 0, line_offset: 0 }));
    assert_eq!(bar.next_text_occurance(), Some(TextPosition { line_number: 2, line_offset: 0 }));
    assert_eq!(bar.next_text_occurance(), None);
    let by_line = bar.text_occurances();
    assert_eq!(by_line.len(), 2);
    assert_eq!(by_line[&2], vec![TextPosition { line_number: 2, line_offset: 0 }]);
    bar.kind = Kind::Ascii;
    assert_eq!(bar.help(), "(Ascii search): Search the binary for an ascii sequence");
}

#[test]
fn line_buffer_past_the_end_is_cut_short() {
    assert_eq!(line_buffer(&String::from("one\ntwo\n"), 1, 5), "two");
    assert_eq!(line_buffer(&String::from("one\n\n\nx"), 1, 2), "\n\n");
}

#[test]
fn trace_keeps_the_newest_records() {
    let mut trace = Trace::create(2);
    trace.push_str("a\n");
    trace.push_str("b\n");
    trace.push_str("c\n");
    trace.trim();
    assert_eq!(trace.clone(), "c\n");
    assert!(trace.ends_with("c\n"));
    trace.push('d');
    assert_eq!(trace.clone(), "c\nd");
}

#[test]
fn takes_the_first_occurrence_after_each_match() {
    // "aba" also occurs at 2, inside the first match, so the scan goes on from 3
    assert_eq!(find_string("abababa", "aba"), vec![0, 4]);
    assert_eq!(find_string("xyz", "aba"), Vec::<usize>::new());
}
