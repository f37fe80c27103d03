use mdbook_linkcheck::line_number;

#[test]
fn first_position_is_on_line_one() {
    assert_eq!(line_number("some text", 0), 1);
    assert_eq!(line_number("\n\n", 0), 1);
    assert_eq!(line_number("", 0), 1);
}

#[test]
fn line_is_one_more_than_the_newlines_before() {
    let text = "ab\ncd\n\nef";
    assert_eq!(line_number(text, 1), 1);
    assert_eq!(line_number(text, 2), 1);
    assert_eq!(line_number(text, 3), 2);
    assert_eq!(line_number(text, 5), 2);
    assert_eq!(line_number(text, 6), 3);
    assert_eq!(line_number(text, 7), 4);
    assert_eq!(line_number(text, text.len()), 4);
}

#[test]
fn line_numbers_never_go_down() {
    let text = "one\ntwo\r\nthree\n\n\nsix \u{e9}\u{e8}\nseven";
    let mut last = 0;
    for offset in 0..=text.len() {
        let line = line_number(text, offset);
        assert!(line >= last);
        last = line;
    }
    assert_eq!(last, 7);
}

#[test]
fn offsets_count_bytes_not_characters() {
    let text = "\u{e9}\n\u{e9}";
    assert_eq!(text.len(), 5);
    assert_eq!(line_number(text, 1), 1);
    assert_eq!(line_number(text, 2), 1);
    assert_eq!(line_number(text, 3), 2);
}
