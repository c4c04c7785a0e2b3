use rxscope::decode::log::{assemble_text, clock_stamp, clock_stamp_full, History, WRAP_WIDTH};

#[test]
fn text_breaks_into_lines_on_a_line_feed() {
    let mut pending = String::new();
    let done = assemble_text(&mut pending, "cq cq\nde ra0ff\n\nk");
    assert_eq!(done, vec!["cq cq".to_string(), "de ra0ff".to_string()]);
    assert_eq!(pending, "k");
    // Control characters other than the line feed are dropped.
    let done = assemble_text(&mut pending, "\r\u{7}x");
    assert!(done.is_empty());
    assert_eq!(pending, "kx");
}

#[test]
fn a_long_line_is_broken_at_the_width() {
    let mut pending = String::new();
    let text: String = std::iter::repeat('a').take(WRAP_WIDTH + 3).collect();
    let done = assemble_text(&mut pending, &text);
    assert_eq!(done.len(), 1);
    assert_eq!(done[0].chars().count(), WRAP_WIDTH);
    assert_eq!(pending, "aaa");
}

#[test]
fn stamps_are_zero_padded() {
    assert_eq!(clock_stamp(7, 5), "0705z");
    assert_eq!(clock_stamp(23, 59), "2359z");
    assert_eq!(clock_stamp_full(0, 9, 30), "00:09:30Z");
}

#[test]
fn the_history_keeps_the_newest_lines() {
    let mut h: History<u32> = History::new(3);
    for i in 0..20u32 {
        h.push(i);
    }
    // Never fewer than sixteen.
    assert_eq!(h.len(), 16);
    assert_eq!(*h.get(0), 4);
    assert_eq!(*h.get(15), 19);
    assert_eq!(h.appended(), 20);
    h.clear();
    assert_eq!(h.len(), 0);
    assert_eq!(h.appended(), 20);
}
