use cephdu::popup::{Popup, POPUP_TEXT_HEIGHT};

fn lines(n: usize) -> String {
    (0..n).map(|i| format!("line {}\n", i)).collect()
}

#[test]
fn popup_measures_its_text() {
    let p = Popup::new("Title", "foot", "one\nthree\n\nfour");
    assert_eq!(p.title, "Title");
    assert_eq!(p.bottom_title, "foot");
    assert_eq!(p.text, "one\nthree\n\nfour");
    assert_eq!(p.text_height, 4);
    assert_eq!(p.text_width, 6);
    assert_eq!(p.scroll(), 0);
}

#[test]
fn popup_is_as_wide_as_its_longest_part() {
    assert_eq!(Popup::new("", "", "abcdefgh\nxy").text_width, 8);
    assert_eq!(Popup::new("a long title", "", "abc").text_width, 12);
    assert_eq!(Popup::new("t", "bottom title", "abc").text_width, 14);
    assert_eq!(Popup::new("", "", "").text_width, 2);
    assert_eq!(Popup::new("", "", "ab\ncdefg").text_width, 5);
}

#[test]
fn popup_width_is_counted_in_bytes() {
    assert_eq!(Popup::new("", "", "\u{e9}\u{e9}\u{e9}").text_width, 6);
    assert_eq!(Popup::new("\u{1f600}", "", "").text_width, 4);
}

#[test]
fn popup_lines_end_at_line_feeds() {
    assert_eq!(Popup::new("", "", "").text_height, 0);
    assert_eq!(Popup::new("", "", "a").text_height, 1);
    assert_eq!(Popup::new("", "", "a\n").text_height, 1);
    assert_eq!(Popup::new("", "", "a\nb").text_height, 2);
    assert_eq!(Popup::new("", "", "\n").text_height, 1);
    assert_eq!(Popup::new("", "", "\n\n").text_height, 2);
    assert_eq!(Popup::new("", "", "a\n\nb\n").text_height, 3);
}

#[test]
fn popup_agrees_with_the_lines_of_the_text() {
    for text in [
        "", "a", "a\n", "\n", "\r\n", "a\r\nbcd\r\n", "a\rb\n", "abc\r", "\r", "\r\r\n", "x\n\r\ny",
        "a\n\n\nbbbbbbbb\ncc", "\u{e9}\u{e9}\n\u{1f600}\r\nz",
    ] {
        let p = Popup::new("", "", text);
        assert_eq!(p.text_height, text.lines().count(), "{:?}", text);
        let widest = text.lines().map(|l| l.len()).max().unwrap_or(0).max(2);
        assert_eq!(p.text_width, widest, "{:?}", text);
    }
}

#[test]
fn scroll_to_clamps_to_the_scrollable_range() {
    let mut p = Popup::new("", "", &lines(25));
    assert_eq!(p.text_height, 25);
    assert_eq!(p.max_scroll(), 15);
    assert_eq!(p.scroll_to(3), 3);
    assert_eq!(p.scroll(), 3);
    assert_eq!(p.scroll_to(15), 15);
    assert_eq!(p.scroll_to(16), 15);
    assert_eq!(p.scroll_to(usize::MAX), 15);
    assert_eq!(p.scroll(), 15);
    assert_eq!(p.scroll_to(0), 0);
}

#[test]
fn scroll_by_clamps_at_both_ends() {
    let mut p = Popup::new("", "", &lines(25));
    assert_eq!(p.scroll_by(1), 1);
    assert_eq!(p.scroll_by(10), 11);
    assert_eq!(p.scroll_by(10), 15);
    assert_eq!(p.scroll_by(-1), 14);
    assert_eq!(p.scroll_by(-10), 4);
    assert_eq!(p.scroll_by(-10), 0);
    assert_eq!(p.scroll_by(0), 0);
    assert_eq!(p.scroll_by(isize::MAX), 15);
    assert_eq!(p.scroll_by(isize::MIN), 0);
    assert_eq!(p.scroll_by(isize::MAX), 15);
    assert_eq!(p.scroll_by(isize::MIN + 1), 0);
}

#[test]
fn short_text_cannot_be_scrolled() {
    for n in [0usize, 1, 9, 10] {
        let mut p = Popup::new("", "", &lines(n));
        assert_eq!(p.max_scroll(), 0);
        assert_eq!(p.scroll_by(5), 0);
        assert_eq!(p.scroll_to(7), 0);
        assert_eq!(p.scroll(), 0);
    }
    let mut p = Popup::new("", "", &lines(POPUP_TEXT_HEIGHT + 1));
    assert_eq!(p.max_scroll(), 1);
    assert_eq!(p.scroll_by(5), 1);
}

#[test]
fn scrolling_leaves_the_text_alone() {
    let mut p = Popup::new("T", "B", &lines(30));
    p.scroll_by(7);
    assert_eq!(p.title, "T");
    assert_eq!(p.bottom_title, "B");
    assert_eq!(p.text, lines(30));
    assert_eq!(p.text_height, 30);
    assert_eq!(p.text_width, 7);
}

#[test]
fn popup_hands_out_what_it_shows() {
    let mut p = Popup::new("Title", "foot", &lines(12));
    p.scroll_by(1);
    assert_eq!(p.title(), "Title");
    assert_eq!(p.bottom_title(), "foot");
    assert_eq!(p.text(), lines(12));
    assert_eq!(p.text_height(), 12);
    assert_eq!(p.text_width(), 7);
    assert_eq!(p.scroll(), 1);
    assert!(p.scroll() <= p.max_scroll());
}
