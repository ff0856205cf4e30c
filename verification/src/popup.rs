//! A text overlay with a bounded scroll offset.

use vstd::prelude::*;
use vstd::slice::slice_index_get;
use vstd::string::StringExecFns;
use vstd::utf8::encode_utf8;

use crate::num::{clamp, counted, larger};

verus! {

/// How many lines of a popup's text are visible at once.
pub const POPUP_TEXT_HEIGHT: usize = 10;

/// How many bytes of `b` follow its last line feed: the length of the line
/// that `b` ends in the middle of.
pub open spec fn open_line_len(b: Seq<u8>) -> nat
    decreases b.len(),
{
    if b.len() == 0 || b.last() == 0x0A {
        0
    } else {
        open_line_len(b.drop_last()) + 1
    }
}

/// The length of the line that a line feed behind `b` ends. A carriage
/// return in front of the line feed belongs to the line ending.
pub open spec fn closed_line_len(b: Seq<u8>) -> nat {
    if open_line_len(b) > 0 && b.last() == 0x0D {
        (open_line_len(b) - 1) as nat
    } else {
        open_line_len(b)
    }
}

/// The length of the longest line of `b` that a line feed ends.
pub open spec fn widest_closed_line(b: Seq<u8>) -> nat
    decreases b.len(),
{
    if b.len() == 0 {
        0
    } else if b.last() == 0x0A && closed_line_len(b.drop_last()) > widest_closed_line(
        b.drop_last(),
    ) {
        closed_line_len(b.drop_last())
    } else {
        widest_closed_line(b.drop_last())
    }
}

/// The length in bytes of the longest line of the text `b`. Lines end at a
/// line feed, or at a carriage return and a line feed; the last line needs
/// no line ending.
pub open spec fn widest_line(b: Seq<u8>) -> nat {
    if open_line_len(b) > widest_closed_line(b) {
        open_line_len(b)
    } else {
        widest_closed_line(b)
    }
}

/// How many line feeds `b` holds.
pub open spec fn line_feeds(b: Seq<u8>) -> nat
    decreases b.len(),
{
    if b.len() == 0 {
        0
    } else if b.last() == 0x0A {
        line_feeds(b.drop_last()) + 1
    } else {
        line_feeds(b.drop_last())
    }
}

/// How many lines the text `b` has. A text that ends in a line ending has
/// the lines that it has without it.
pub open spec fn line_count(b: Seq<u8>) -> nat {
    if open_line_len(b) > 0 {
        line_feeds(b) + 1
    } else {
        line_feeds(b)
    }
}

proof fn lemma_line_bounds(b: Seq<u8>)
    ensures
        open_line_len(b) <= b.len(),
        widest_closed_line(b) <= b.len(),
        line_feeds(b) <= b.len(),
        line_count(b) <= b.len(),
    decreases b.len(),
{
    if b.len() > 0 {
        lemma_line_bounds(b.drop_last());
    }
}

/// A text shown over the listing, with its scroll state.
#[derive(Debug)]
pub struct Popup {
    pub title: String,
    pub bottom_title: String,
    pub text: String,
    pub text_width: usize,
    pub text_height: usize,
    scroll: usize,
}

/// A `Popup` with its texts as character sequences.
pub struct PopupView {
    pub title: Seq<char>,
    pub bottom_title: Seq<char>,
    pub text: Seq<char>,
    /// The width of the text, in bytes.
    pub text_width: usize,
    /// How many lines the text has.
    pub text_height: usize,
    /// The first visible line.
    pub scroll: usize,
}

impl PopupView {
    /// The highest offset that the height of the text allows: what it has of
    /// lines beyond those visible at once.
    pub open spec fn scroll_range(self) -> usize {
        if self.text_height >= POPUP_TEXT_HEIGHT {
            (self.text_height - POPUP_TEXT_HEIGHT) as usize
        } else {
            0
        }
    }

    /// The popup that shows `text` from its first line under `title`, with
    /// `bottom_title` below it.
    pub open spec fn showing(title: Seq<char>, bottom_title: Seq<char>, text: Seq<char>) -> PopupView {
        PopupView {
            title,
            bottom_title,
            text,
            text_width: larger(
                larger(widest_line(encode_utf8(text)) as int, encode_utf8(title).len() as int),
                counted(encode_utf8(bottom_title).len() as int + 2),
            ) as usize,
            text_height: line_count(encode_utf8(text)) as usize,
            scroll: 0,
        }
    }

    /// Whether the offset lies within the scroll range: the first visible
    /// line is no further down than the height of the text allows.
    pub open spec fn in_range(self) -> bool {
        self.scroll <= self.scroll_range()
    }

    /// This popup scrolled to `line`, or as near to it as the text allows.
    pub open spec fn scrolled_to(self, line: int) -> PopupView {
        PopupView { scroll: clamp(line, 0, self.scroll_range() as int) as usize, ..self }
    }
}

impl View for Popup {
    type V = PopupView;

    closed spec fn view(&self) -> PopupView {
        PopupView {
            title: self.title@,
            bottom_title: self.bottom_title@,
            text: self.text@,
            text_width: self.text_width,
            text_height: self.text_height,
            scroll: self.scroll,
        }
    }
}

impl Popup {

    /// A popup showing `text` from its first line. Its width is that of the
    /// longest line, of the title, or of the bottom title and its margin of
    /// two, whichever is largest; widths are counted in bytes.
    pub fn new(title: &str, bottom_title: &str, text: &str) -> (popup: Popup)
        ensures
            popup@ == PopupView::showing(title@, bottom_title@, text@),
            popup@.in_range(),
    {
        let bytes = text.as_bytes();
        let n = bytes.len();
        let mut open: usize = 0;
        let mut widest: usize = 0;
        let mut feeds: usize = 0;
        let mut i: usize = 0;
        assert(bytes@.take(0) =~= Seq::<u8>::empty());
        while i < n
            invariant
                n == bytes@.len(),
                i <= n,
                open == open_line_len(bytes@.take(i as int)),
                widest == widest_closed_line(bytes@.take(i as int)),
                feeds == line_feeds(bytes@.take(i as int)),
            decreases n - i,
        {
            let ghost seen = bytes@.take(i as int);
            let ghost upto = bytes@.take(i + 1);
            proof {
                assert(upto.drop_last() =~= seen);
                assert(upto.last() == bytes@[i as int]);
                lemma_line_bounds(seen);
            }
            let b = *slice_index_get(bytes, i);
            if b == 0x0A {
                let closed = if open > 0 && *slice_index_get(bytes, i - 1) == 0x0D {
                    assert(seen.last() == bytes@[i - 1]);
                    open - 1
                } else {
                    assert(open > 0 ==> seen.last() == bytes@[i - 1]);
                    open
                };
                if closed > widest {
                    widest = closed;
                }
                open = 0;
                feeds += 1;
            } else {
                open += 1;
            }
            i += 1;
        }
        assert(bytes@.take(n as int) =~= bytes@);
        let text_height = if open > 0 {
            proof {
                lemma_line_bounds(bytes@);
                assert(line_feeds(bytes@) < n) by {
                    lemma_feeds_leave_room(bytes@);
                }
            }
            feeds + 1
        } else {
            feeds
        };
        let mut text_width = if open > widest {
            open
        } else {
            widest
        };
        let title_len = title.as_bytes().len();
        if title_len > text_width {
            text_width = title_len;
        }
        let bottom_len = bottom_title.as_bytes().len().saturating_add(2);
        if bottom_len > text_width {
            text_width = bottom_len;
        }
        Popup {
            title: String::from_str(title),
            bottom_title: String::from_str(bottom_title),
            text: String::from_str(text),
            text_width,
            text_height,
            scroll: 0,
        }
    }

    /// The title.
    pub fn title(&self) -> (title: &str)
        ensures
            title@ == self@.title,
    {
        self.title.as_str()
    }

    /// The text below the popup.
    pub fn bottom_title(&self) -> (bottom_title: &str)
        ensures
            bottom_title@ == self@.bottom_title,
    {
        self.bottom_title.as_str()
    }

    /// The text shown.
    pub fn text(&self) -> (text: &str)
        ensures
            text@ == self@.text,
    {
        self.text.as_str()
    }

    /// The width of the text, in bytes.
    pub fn text_width(&self) -> (width: usize)
        ensures
            width == self@.text_width,
    {
        self.text_width
    }

    /// How many lines the text has.
    pub fn text_height(&self) -> (height: usize)
        ensures
            height == self@.text_height,
    {
        self.text_height
    }

    /// The first visible line.
    pub fn scroll(&self) -> (offset: usize)
        ensures
            offset == self@.scroll,
    {
        self.scroll
    }

    /// Scrolls by `delta` lines, down for a positive number and up for a
    /// negative one, as far as the text allows, and gives the new offset.
    pub fn scroll_by(&mut self, delta: isize) -> (offset: usize)
        ensures
            final(self)@ == old(self)@.scrolled_to(old(self)@.scroll + delta),
            final(self)@.in_range(),
            offset == final(self)@.scroll,
    {
        let target: usize = if delta >= 0 {
            self.scroll.saturating_add(delta as usize)
        } else {
            let back: usize = if delta == isize::MIN {
                (isize::MAX as usize) + 1
            } else {
                (-delta) as usize
            };
            self.scroll.saturating_sub(back)
        };
        self.scroll_to(target)
    }

    /// Scrolls to `line`, or as near to it as the text allows, and gives the
    /// new offset.
    pub fn scroll_to(&mut self, line: usize) -> (offset: usize)
        ensures
            final(self)@ == old(self)@.scrolled_to(line as int),
            final(self)@.in_range(),
            offset == final(self)@.scroll,
    {
        let range = self.max_scroll();
        self.scroll = if line < range {
            line
        } else {
            range
        };
        self.scroll
    }

    /// The highest offset that the height of the text allows.
    pub fn max_scroll(&self) -> (range: usize)
        ensures
            range == self@.scroll_range(),
    {
        self.text_height.saturating_sub(POPUP_TEXT_HEIGHT)
    }
}

/// Wherever a popup is scrolled to, and wherever it stood before, its
/// offset lies within its scroll range afterwards.
pub proof fn lemma_scrolled_in_range(popup: PopupView, line: int)
    ensures
        popup.scrolled_to(line).in_range(),
        popup.scrolled_to(line).scroll_range() == popup.scroll_range(),
        popup.in_range() && 0 <= line <= popup.scroll_range() ==> popup.scrolled_to(line).scroll
            == line,
{
}

proof fn lemma_feeds_leave_room(b: Seq<u8>)
    requires
        open_line_len(b) > 0,
    ensures
        line_feeds(b) < b.len(),
    decreases b.len(),
{
    lemma_line_bounds(b.drop_last());
}

} // verus!
