//! The keys of the browser: what each stands for, and the help that says
//! so.

use vstd::prelude::*;
use vstd::utf8::encode_utf8;

use crate::entry::{SortField, SortMode};
use crate::num::larger;
use crate::popup::POPUP_TEXT_HEIGHT;
use crate::text::{pad_left_text, pad_right_text, push_pad_left, push_pad_right};

verus! {

/// How many entries, or lines, a page key moves by.
pub const PAGE_BY: usize = 10;

/// A key of the keyboard, as far as the browser tells keys apart.
#[derive(Debug, Clone, Copy, PartialEq, Eq, Structural)]
pub enum Key {
    Esc,
    Enter,
    Backspace,
    Up,
    Down,
    PageUp,
    PageDown,
    Home,
    End,
    Char(char),
    /// A function key, by its number.
    F(u8),
    /// Any other key.
    Other,
}

/// What a key can ask for.
#[derive(Debug, Clone, Copy, PartialEq, Eq, Structural)]
pub enum Command {
    /// Close the popup.
    ClosePopup,
    /// Scroll the popup by so many lines; down if positive.
    ScrollBy(isize),
    /// Scroll the popup to this line.
    ScrollTo(usize),
    /// Enter the directory under the cursor.
    Open,
    /// Move the cursor down by so many entries.
    Next(usize),
    /// Move the cursor up by so many entries.
    Prev(usize),
    /// Move the cursor to the first entry.
    First,
    /// Move the cursor to the last entry.
    Last,
    /// Enter the parent directory.
    Parent,
    Quit,
    /// Sort by the field of this mode and show it as the mode says, or turn
    /// the display round if the listing is sorted by that field already.
    Sort(SortMode),
    /// Enter the directory that the browser started in.
    Original,
    ToggleOwner,
    ToggleCTime,
    /// Read the current directory again.
    Refresh,
    Help,
    Nothing,
}

/// What `key` stands for while a popup is shown.
pub open spec fn popup_command(key: Key) -> Command {
    if key == Key::Esc || key == Key::Enter || key == Key::Char('q') || key == Key::Char('?') {
        Command::ClosePopup
    } else if key == Key::Down || key == Key::Char('j') {
        Command::ScrollBy(1)
    } else if key == Key::Up || key == Key::Char('k') {
        Command::ScrollBy((-1) as isize)
    } else if key == Key::PageUp {
        Command::ScrollBy((-10) as isize)
    } else if key == Key::PageDown {
        Command::ScrollBy(10)
    } else if key == Key::Home || key == Key::Char('g') {
        Command::ScrollTo(0)
    } else if key == Key::End || key == Key::Char('G') {
        Command::ScrollTo(POPUP_TEXT_HEIGHT)
    } else {
        Command::Nothing
    }
}

/// What `key` stands for while the listing is shown.
pub open spec fn listing_command(key: Key) -> Command {
    if key == Key::Enter {
        Command::Open
    } else if key == Key::Down || key == Key::Char('j') {
        Command::Next(1)
    } else if key == Key::Up || key == Key::Char('k') {
        Command::Prev(1)
    } else if key == Key::Home || key == Key::Char('g') {
        Command::First
    } else if key == Key::End || key == Key::Char('G') {
        Command::Last
    } else if key == Key::PageUp {
        Command::Prev(PAGE_BY)
    } else if key == Key::PageDown {
        Command::Next(PAGE_BY)
    } else if key == Key::Backspace {
        Command::Parent
    } else if key == Key::Esc || key == Key::Char('q') {
        Command::Quit
    } else if key == Key::Char('n') {
        Command::Sort(SortField::Name.spec_default_mode())
    } else if key == Key::Char('s') {
        Command::Sort(SortField::Size.spec_default_mode())
    } else if key == Key::Char('c') || key == Key::Char('C') {
        Command::Sort(SortField::Rentries.spec_default_mode())
    } else if key == Key::Char('U') {
        Command::Sort(SortField::Owner.spec_default_mode())
    } else if key == Key::Char('T') {
        Command::Sort(SortField::CTime.spec_default_mode())
    } else if key == Key::Char(' ') {
        Command::Original
    } else if key == Key::Char('u') {
        Command::ToggleOwner
    } else if key == Key::Char('t') {
        Command::ToggleCTime
    } else if key == Key::Char('r') || key == Key::F(5) {
        Command::Refresh
    } else if key == Key::Char('?') || key == Key::Char('h') {
        Command::Help
    } else {
        Command::Nothing
    }
}

/// What `key` stands for; `in_popup` says whether a popup is shown.
pub open spec fn command_for(in_popup: bool, key: Key) -> Command {
    if in_popup {
        popup_command(key)
    } else {
        listing_command(key)
    }
}

/// What `key` stands for; `in_popup` says whether a popup is shown.
pub fn command(in_popup: bool, key: Key) -> (cmd: Command)
    ensures
        cmd == command_for(in_popup, key),
{
    if in_popup {
        match key {
            Key::Esc | Key::Enter | Key::Char('q') | Key::Char('?') => Command::ClosePopup,
            Key::Down | Key::Char('j') => Command::ScrollBy(1),
            Key::Up | Key::Char('k') => Command::ScrollBy(-1),
            Key::PageUp => Command::ScrollBy(-10),
            Key::PageDown => Command::ScrollBy(10),
            Key::Home | Key::Char('g') => Command::ScrollTo(0),
            Key::End | Key::Char('G') => Command::ScrollTo(POPUP_TEXT_HEIGHT),
            _ => Command::Nothing,
        }
    } else {
        match key {
            Key::Enter => Command::Open,
            Key::Down | Key::Char('j') => Command::Next(1),
            Key::Up | Key::Char('k') => Command::Prev(1),
            Key::Home | Key::Char('g') => Command::First,
            Key::End | Key::Char('G') => Command::Last,
            Key::PageUp => Command::Prev(PAGE_BY),
            Key::PageDown => Command::Next(PAGE_BY),
            Key::Backspace => Command::Parent,
            Key::Esc | Key::Char('q') => Command::Quit,
            Key::Char('n') => Command::Sort(SortField::Name.default_mode()),
            Key::Char('s') => Command::Sort(SortField::Size.default_mode()),
            Key::Char('c') | Key::Char('C') => Command::Sort(SortField::Rentries.default_mode()),
            Key::Char('U') => Command::Sort(SortField::Owner.default_mode()),
            Key::Char('T') => Command::Sort(SortField::CTime.default_mode()),
            Key::Char(' ') => Command::Original,
            Key::Char('u') => Command::ToggleOwner,
            Key::Char('t') => Command::ToggleCTime,
            Key::Char('r') | Key::F(5) => Command::Refresh,
            Key::Char('?') | Key::Char('h') => Command::Help,
            _ => Command::Nothing,
        }
    }
}

/// One line of the help: the keys, and what they do.
pub struct HelpLine {
    pub keys: &'static str,
    pub meaning: &'static str,
}

/// The lines of the help, as texts.
pub open spec fn help_table() -> Seq<(Seq<char>, Seq<char>)> {
    seq![
        ("q, Esc"@, "Quit"@),
        ("Down, j"@, "Move cursor down"@),
        ("Up, k"@, "Move cursor up"@),
        ("Page Down"@, "Jump cursor down"@),
        ("Page Up"@, "Jump cursor up"@),
        ("Enter"@, "Open directory"@),
        ("Backspace"@, "Go to parent directory"@),
        ("n"@, "Sort by name"@),
        ("s"@, "Sort by size"@),
        ("c, C"@, "Sort by file count"@),
        ("U"@, "Sort by owner"@),
        ("u"@, "Toggle show owner"@),
        ("T"@, "Sort by modified time"@),
        ("t"@, "Toggle show modified time"@),
        ("?, h"@, "Show this help message"@),
        ("Home, g"@, "Select first entry"@),
        ("End, G"@, "Select last entry"@),
        ("r, F5"@, "Refresh"@),
        ("Ctrl-C"@, "Interrupt changing the directory"@),
        ("Space"@, "Go to original directory"@),
    ]
}

/// The lines of `v`, as texts.
pub open spec fn help_views(v: Seq<HelpLine>) -> Seq<(Seq<char>, Seq<char>)> {
    v.map_values(|h: HelpLine| (h.keys@, h.meaning@))
}

/// The lines of the help.
pub fn help() -> (lines: Vec<HelpLine>)
    ensures
        help_views(lines@) == help_table(),
{
    let mut lines: Vec<HelpLine> = Vec::new();
    lines.push(HelpLine { keys: "q, Esc", meaning: "Quit" });
    lines.push(HelpLine { keys: "Down, j", meaning: "Move cursor down" });
    lines.push(HelpLine { keys: "Up, k", meaning: "Move cursor up" });
    lines.push(HelpLine { keys: "Page Down", meaning: "Jump cursor down" });
    lines.push(HelpLine { keys: "Page Up", meaning: "Jump cursor up" });
    lines.push(HelpLine { keys: "Enter", meaning: "Open directory" });
    lines.push(HelpLine { keys: "Backspace", meaning: "Go to parent directory" });
    lines.push(HelpLine { keys: "n", meaning: "Sort by name" });
    lines.push(HelpLine { keys: "s", meaning: "Sort by size" });
    lines.push(HelpLine { keys: "c, C", meaning: "Sort by file count" });
    lines.push(HelpLine { keys: "U", meaning: "Sort by owner" });
    lines.push(HelpLine { keys: "u", meaning: "Toggle show owner" });
    lines.push(HelpLine { keys: "T", meaning: "Sort by modified time" });
    lines.push(HelpLine { keys: "t", meaning: "Toggle show modified time" });
    lines.push(HelpLine { keys: "?, h", meaning: "Show this help message" });
    lines.push(HelpLine { keys: "Home, g", meaning: "Select first entry" });
    lines.push(HelpLine { keys: "End, G", meaning: "Select last entry" });
    lines.push(HelpLine { keys: "r, F5", meaning: "Refresh" });
    lines.push(HelpLine { keys: "Ctrl-C", meaning: "Interrupt changing the directory" });
    lines.push(HelpLine { keys: "Space", meaning: "Go to original directory" });
    assert(help_views(lines@) =~= help_table());
    lines
}

/// The length in bytes of the longest text of keys in `table`.
pub open spec fn widest_keys(table: Seq<(Seq<char>, Seq<char>)>) -> nat
    decreases table.len(),
{
    if table.len() == 0 {
        0
    } else {
        larger(widest_keys(table.drop_last()) as int, encode_utf8(table.last().0).len() as int) as nat
    }
}

/// The length in bytes of the longest meaning in `table`.
pub open spec fn widest_meaning(table: Seq<(Seq<char>, Seq<char>)>) -> nat
    decreases table.len(),
{
    if table.len() == 0 {
        0
    } else {
        larger(
            widest_meaning(table.drop_last()) as int,
            encode_utf8(table.last().1).len() as int,
        ) as nat
    }
}

/// The lines of `table` as one text: on each line the keys right-aligned
/// in `keys_width` characters, a colon and two blanks, and the meaning
/// left-aligned in `meaning_width` characters.
pub open spec fn help_lines(
    table: Seq<(Seq<char>, Seq<char>)>,
    keys_width: nat,
    meaning_width: nat,
) -> Seq<char>
    decreases table.len(),
{
    if table.len() == 0 {
        Seq::empty()
    } else {
        help_lines(table.drop_last(), keys_width, meaning_width) + pad_left_text(
            table.last().0,
            keys_width,
        ) + seq![':', ' ', ' '] + pad_right_text(table.last().1, meaning_width) + seq!['\n']
    }
}

/// The text of the help: its lines, the two columns as wide as their
/// longest text.
pub open spec fn help_text_of() -> Seq<char> {
    help_lines(help_table(), widest_keys(help_table()), widest_meaning(help_table()))
}

/// The text of the help.
pub fn help_text() -> (text: String)
    ensures
        text@ == help_text_of(),
{
    let lines = help();
    let ghost table = help_views(lines@);
    let n = lines.len();
    let mut keys_width: usize = 0;
    let mut meaning_width: usize = 0;
    let mut i: usize = 0;
    assert(table.take(0) =~= Seq::empty());
    while i < n
        invariant
            n == lines.len(),
            i <= n,
            table == help_views(lines@),
            keys_width == widest_keys(table.take(i as int)),
            meaning_width == widest_meaning(table.take(i as int)),
        decreases n - i,
    {
        proof {
            let upto = table.take(i + 1);
            assert(upto.drop_last() =~= table.take(i as int));
            assert(upto.last() == (lines@[i as int].keys@, lines@[i as int].meaning@));
        }
        let k = lines[i].keys.as_bytes().len();
        let m = lines[i].meaning.as_bytes().len();
        if k > keys_width {
            keys_width = k;
        }
        if m > meaning_width {
            meaning_width = m;
        }
        i += 1;
    }
    assert(table.take(n as int) =~= table);
    let mut text = String::new();
    let mut j: usize = 0;
    assert(text@ =~= help_lines(table.take(0), keys_width as nat, meaning_width as nat));
    while j < n
        invariant
            n == lines.len(),
            j <= n,
            table == help_views(lines@),
            text@ == help_lines(table.take(j as int), keys_width as nat, meaning_width as nat),
        decreases n - j,
    {
        proof {
            let upto = table.take(j + 1);
            assert(upto.drop_last() =~= table.take(j as int));
            assert(upto.last() == (lines@[j as int].keys@, lines@[j as int].meaning@));
        }
        let ghost before = text@;
        push_pad_left(&mut text, lines[j].keys, keys_width);
        text.push(':');
        text.push(' ');
        text.push(' ');
        push_pad_right(&mut text, lines[j].meaning, meaning_width);
        text.push('\n');
        assert(text@ =~= before + pad_left_text(lines@[j as int].keys@, keys_width as nat) + seq![
            ':',
            ' ',
            ' ',
        ] + pad_right_text(lines@[j as int].meaning@, meaning_width as nat) + seq!['\n']);
        j += 1;
    }
    text
}

} // verus!
