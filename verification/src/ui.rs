//! What a listing looks like: the texts of sizes and counts, and the spans
//! of each row.

use vstd::prelude::*;
use vstd::string::StringExecFns;
use vstd::utf8::encode_utf8;

use crate::entry::{text_of, DirEntry, DirEntryView, EntryKind};
use crate::gauge::{
    gauge, gauge_spans, one_decimal, push_one_decimal, span_views, tenths, tenths_of, Ratio, Span,
    SpanView, Tone,
};
use crate::listing::{known, DirListing, ListingStats};
use crate::text::{
    decimal_text, pad_left_text, pad_right_text, push_decimal, push_pad_left, push_pad_right,
};
use crate::timefmt::{change_time_text, shown_time, LAST_SHOWN_SECOND};

verus! {

/// The width of each gauge of a row, in cells.
pub const GAUGE_WIDTH: usize = 20;

/// The width of a change time, in cells: that of `Jan  1  2000` and of
/// `Dec 31 12:34`.
pub const MTIME_FMT_WIDTH: usize = 12;

/// How many times `n` can be divided by a thousand before it is less than a
/// thousand.
pub open spec fn thousands(n: nat) -> nat
    decreases n,
{
    if n < 1000 {
        0
    } else {
        1 + thousands(n / 1000)
    }
}

/// A thousand to the power of `i`.
pub open spec fn thousand_to(i: nat) -> nat
    decreases i,
{
    if i == 0 {
        1
    } else {
        1000 * thousand_to((i - 1) as nat)
    }
}

/// The letter for a thousand to the power of `i`, from one upwards.
pub open spec fn unit_letter(i: nat) -> char {
    if i == 1 {
        'K'
    } else if i == 2 {
        'M'
    } else if i == 3 {
        'G'
    } else if i == 4 {
        'T'
    } else if i == 5 {
        'P'
    } else if i == 6 {
        'E'
    } else if i == 7 {
        'Z'
    } else {
        'Y'
    }
}

/// A size in bytes as text: below a thousand the number and ` B`, from
/// there on the number of thousands, millions and so on with one decimal
/// place and the unit. With `align` the unit `B` stands where the second
/// letter of the longer units stands. An unknown size is the empty text.
///
/// The decimal place is rounded as `tenths` rounds, on the exact quotient,
/// a tie going to the even tenth: 1050 bytes are `1.0 KB` and 1150 bytes
/// `1.2 KB`. A quotient held in binary floating point rounds some ties the
/// other way, as it seldom holds a tie exactly; it would make `1.1 KB` of
/// either.
pub open spec fn size_text(size: Option<usize>, align: bool) -> Seq<char> {
    match size {
        None => Seq::empty(),
        Some(n) => {
            let i = thousands(n as nat);
            if i == 0 {
                decimal_text(n as nat) + (if align {
                    seq![' ', ' ']
                } else {
                    Seq::empty()
                }) + seq![' ', 'B']
            } else {
                one_decimal(tenths(n as int, thousand_to(i) as int)) + seq![' ', unit_letter(i), 'B']
            }
        },
    }
}

/// A count of entries as text: below a thousand the number, from there on
/// the number of thousands, millions and so on with one decimal place and
/// the letter of the unit. With `align` a number below a thousand ends
/// where the decimal point of the others stands. An unknown count is the
/// empty text.
///
/// The decimal place is rounded as `tenths` rounds, on the exact quotient,
/// a tie going to the even tenth: 1050 entries are `1.0 K`. A quotient held
/// in binary floating point rounds some ties the other way.
pub open spec fn rentries_text(rentries: Option<usize>, align: bool) -> Seq<char> {
    match rentries {
        None => Seq::empty(),
        Some(n) => {
            let i = thousands(n as nat);
            if i == 0 {
                decimal_text(n as nat) + (if align {
                    seq![' ', ' ', ' ', ' ']
                } else {
                    Seq::empty()
                })
            } else {
                one_decimal(tenths(n as int, thousand_to(i) as int)) + seq![' ', unit_letter(i)]
            }
        },
    }
}

/// The power of a thousand that `n` reaches, and that power of a thousand.
fn magnitude(n: usize) -> (r: (usize, usize))
    ensures
        r.0 == thousands(n as nat),
        r.1 == thousand_to(r.0 as nat),
        r.1 >= 1,
{
    let mut i: usize = 0;
    let mut scale: usize = 1;
    let mut rest: usize = n;
    while rest >= 1000
        invariant
            scale == thousand_to(i as nat),
            scale >= 1,
            thousands(n as nat) == i + thousands(rest as nat),
            rest * scale <= n,
            i < scale,
        decreases rest,
    {
        proof {
            let (r, s) = (rest as int, scale as int);
            assert((r / 1000) * (s * 1000) <= r * s) by (nonlinear_arith)
                requires
                    r >= 0,
                    s >= 1,
            ;
            assert(s * 1000 <= r * s) by (nonlinear_arith)
                requires
                    r >= 1000,
                    s >= 1,
            ;
        }
        rest = rest / 1000;
        scale = scale * 1000;
        i += 1;
    }
    (i, scale)
}

fn unit_char(i: usize) -> (c: char)
    ensures
        c == unit_letter(i as nat),
{
    if i == 1 {
        'K'
    } else if i == 2 {
        'M'
    } else if i == 3 {
        'G'
    } else if i == 4 {
        'T'
    } else if i == 5 {
        'P'
    } else if i == 6 {
        'E'
    } else if i == 7 {
        'Z'
    } else {
        'Y'
    }
}

/// A size in bytes as text.
pub fn size_str(size: Option<usize>, align: bool) -> (text: String)
    ensures
        text@ == size_text(size, align),
{
    let mut text = String::new();
    match size {
        None => {},
        Some(n) => {
            let (i, scale) = magnitude(n);
            if i == 0 {
                push_decimal(&mut text, n as u128);
                if align {
                    text.push(' ');
                    text.push(' ');
                }
                text.push(' ');
                text.push('B');
            } else {
                push_one_decimal(&mut text, tenths_of(n as u128, scale));
                text.push(' ');
                text.push(unit_char(i));
                text.push('B');
            }
        },
    }
    assert(text@ =~= size_text(size, align));
    text
}

/// A count of entries as text.
pub fn rentries_str(rentries: Option<usize>, align: bool) -> (text: String)
    ensures
        text@ == rentries_text(rentries, align),
{
    let mut text = String::new();
    match rentries {
        None => {},
        Some(n) => {
            let (i, scale) = magnitude(n);
            if i == 0 {
                push_decimal(&mut text, n as u128);
                if align {
                    text.push(' ');
                    text.push(' ');
                    text.push(' ');
                    text.push(' ');
                }
            } else {
                push_one_decimal(&mut text, tenths_of(n as u128, scale));
                text.push(' ');
                text.push(unit_char(i));
            }
        },
    }
    assert(text@ =~= rentries_text(rentries, align));
    text
}

/// The tone of the text in the row of an entry of kind `kind`.
pub open spec fn text_tone(kind: EntryKind) -> Tone {
    if kind == EntryKind::Dir {
        Tone::DirText
    } else {
        Tone::OtherText
    }
}

/// The share that `count` is of `total`; an unknown count has none.
pub open spec fn share_of(count: Option<usize>, total: usize) -> Option<Ratio> {
    match count {
        Some(c) => Some(Ratio { part: c, whole: total }),
        None => None,
    }
}

/// The text in front of the size gauge: the size, right-aligned.
pub open spec fn size_column(e: DirEntryView) -> Seq<char> {
    pad_left_text(size_text(e.size, true), 8) + seq![' ', '\u{2503}']
}

/// The text between the two gauges: the entry count, right-aligned.
pub open spec fn count_column(e: DirEntryView) -> Seq<char> {
    seq!['\u{2503}', ' ', ' '] + pad_left_text(rentries_text(e.rentries, true), 7) + seq![
        ' ',
        '\u{2503}',
    ]
}

/// A span of text in the row of an entry of kind `kind`.
pub open spec fn text_span(text: Seq<char>, kind: EntryKind, selected: bool) -> SpanView {
    SpanView { text, tone: text_tone(kind), selected }
}

/// The spans that show the owner of `e`: the user right-aligned behind a
/// blank, then the group left-aligned behind a colon.
pub open spec fn owner_spans(
    e: DirEntryView,
    user_width: nat,
    group_width: nat,
    selected: bool,
) -> Seq<SpanView> {
    (match e.user {
        Some(user) => seq![
            text_span(seq![' '] + pad_left_text(user, user_width), e.kind, selected),
        ],
        None => Seq::empty(),
    }) + (match e.group {
        Some(group) => seq![
            text_span(seq![':'] + pad_right_text(group, group_width), e.kind, selected),
        ],
        None => Seq::empty(),
    })
}

/// The span that shows the change time `time`, left-aligned behind a blank.
pub open spec fn time_spans(
    time: Option<Seq<char>>,
    time_width: nat,
    kind: EntryKind,
    selected: bool,
) -> Seq<SpanView> {
    match time {
        Some(t) => seq![text_span(seq![' '] + pad_right_text(t, time_width), kind, selected)],
        None => Seq::empty(),
    }
}

/// The spans of the row that shows `e`, from left to right: its size as
/// text and as gauge, its recursive entry count as text and as gauge, its
/// owner if `show_owner` asks for it, its change time `time` if there is
/// one, and its name.
///
/// The size gauge is filled by the size as a share of the largest size in
/// the listing and labelled with the size as a share of the total size; the
/// gauge of the entry count likewise. An unknown figure fills nothing and
/// has no label.
pub open spec fn row_spans(
    e: DirEntryView,
    gauge_width: int,
    stats: ListingStats,
    user_width: nat,
    group_width: nat,
    time_width: nat,
    time: Option<Seq<char>>,
    selected: bool,
    show_owner: bool,
) -> Seq<SpanView> {
    seq![text_span(size_column(e), e.kind, selected)] + gauge_spans(
        Ratio { part: known(e.size), whole: stats.max_size },
        share_of(e.size, stats.total_size),
        gauge_width,
        selected,
    ) + seq![text_span(count_column(e), e.kind, selected)] + gauge_spans(
        Ratio { part: known(e.rentries), whole: stats.max_rentries },
        share_of(e.rentries, stats.total_rentries),
        gauge_width,
        selected,
    ) + seq![text_span(seq!['\u{2503}'], e.kind, selected)] + (if show_owner {
        owner_spans(e, user_width, group_width, selected)
    } else {
        Seq::empty()
    }) + time_spans(time, time_width, e.kind, selected) + seq![
        text_span(seq![' '] + e.name, e.kind, selected),
    ]
}

/// The change time that the row of `e` is asked to show: that of the entry,
/// if it has one and `show_time` asks for it.
pub open spec fn time_asked(e: DirEntryView, show_time: bool) -> Option<usize> {
    if show_time {
        e.ctime
    } else {
        None
    }
}

/// The text of the change time in the row of `e`, in the zone `offset`
/// seconds east of Greenwich: that of the time that the row is asked to
/// show, if it is asked to show one.
pub open spec fn row_time(e: DirEntryView, show_time: bool, offset: i32, current_year: isize) -> Option<
    Seq<char>,
> {
    match time_asked(e, show_time) {
        Some(ctime) => shown_time(ctime, offset, current_year),
        None => None,
    }
}

/// Whether `spans` are the spans of the row that shows `e`, the change
/// time, where the row is asked to show one, written in the zone that
/// `zone` gives for it. A time behind the year 9999 is not shown, and `zone`
/// is not asked about it.
pub open spec fn is_row<F: Fn(i64) -> i32>(
    spans: Seq<SpanView>,
    e: DirEntryView,
    gauge_width: int,
    stats: ListingStats,
    user_width: nat,
    group_width: nat,
    time_width: nat,
    selected: bool,
    show_owner: bool,
    show_time: bool,
    current_year: isize,
    zone: F,
) -> bool {
    if time_asked(e, show_time) is Some && time_asked(e, show_time)->0 <= LAST_SHOWN_SECOND {
        let ctime = time_asked(e, show_time)->0;
        exists|offset: i32|
            {
                &&& #[trigger] call_ensures(zone, (ctime as i64,), offset)
                &&& spans == row_spans(
                    e,
                    gauge_width,
                    stats,
                    user_width,
                    group_width,
                    time_width,
                    shown_time(ctime, offset, current_year),
                    selected,
                    show_owner,
                )
            }
    } else {
        spans == row_spans(
            e,
            gauge_width,
            stats,
            user_width,
            group_width,
            time_width,
            None,
            selected,
            show_owner,
        )
    }
}

fn push_span(spans: &mut Vec<Span>, text: String, tone: Tone, selected: bool)
    ensures
        span_views(final(spans)@) == span_views(old(spans)@).push(
            (SpanView { text: text@, tone, selected }),
        ),
{
    spans.push(Span { text, tone, selected });
    assert(span_views(spans@) =~= span_views(old(spans)@).push(
        (SpanView { text: text@, tone, selected }),
    ));
}

fn push_spans(spans: &mut Vec<Span>, more: Vec<Span>)
    ensures
        span_views(final(spans)@) == span_views(old(spans)@) + span_views(more@),
{
    let mut rest = more;
    spans.append(&mut rest);
    assert(span_views(spans@) =~= span_views(old(spans)@) + span_views(more@));
}

fn share(count: Option<usize>, total: usize) -> (r: Option<Ratio>)
    ensures
        r == share_of(count, total),
{
    match count {
        Some(c) => Some(Ratio { part: c, whole: total }),
        None => None,
    }
}

fn count_or_zero(count: Option<usize>) -> (c: usize)
    ensures
        c == known(count),
{
    match count {
        Some(c) => c,
        None => 0,
    }
}

fn tone_of(kind: EntryKind) -> (tone: Tone)
    ensures
        tone == text_tone(kind),
{
    if kind == EntryKind::Dir {
        Tone::DirText
    } else {
        Tone::OtherText
    }
}

impl DirEntry {
    fn size_column(&self) -> (text: String)
        ensures
            text@ == size_column(self@),
    {
        let mut text = String::new();
        push_pad_left(&mut text, size_str(self.size, true).as_str(), 8);
        text.push(' ');
        text.push('\u{2503}');
        assert(text@ =~= size_column(self@));
        text
    }

    fn count_column(&self) -> (text: String)
        ensures
            text@ == count_column(self@),
    {
        let mut text = String::new();
        text.push('\u{2503}');
        text.push(' ');
        text.push(' ');
        push_pad_left(&mut text, rentries_str(self.rentries, true).as_str(), 7);
        text.push(' ');
        text.push('\u{2503}');
        assert(text@ =~= count_column(self@));
        text
    }

    fn owner_columns(&self, user_width: usize, group_width: usize, selected: bool) -> (spans: Vec<
        Span,
    >)
        ensures
            span_views(spans@) == owner_spans(
                self@,
                user_width as nat,
                group_width as nat,
                selected,
            ),
    {
        let tone = tone_of(self.kind);
        let mut spans: Vec<Span> = Vec::new();
        assert(span_views(spans@) =~= Seq::<SpanView>::empty());
        if let Some(user) = &self.user {
            let mut col = String::new();
            col.push(' ');
            push_pad_left(&mut col, user.as_str(), user_width);
            assert(col@ =~= seq![' '] + pad_left_text(user@, user_width as nat));
            push_span(&mut spans, col, tone, selected);
        }
        if let Some(group) = &self.group {
            let mut col = String::new();
            col.push(':');
            push_pad_right(&mut col, group.as_str(), group_width);
            assert(col@ =~= seq![':'] + pad_right_text(group@, group_width as nat));
            push_span(&mut spans, col, tone, selected);
        }
        assert(span_views(spans@) =~= owner_spans(
            self@,
            user_width as nat,
            group_width as nat,
            selected,
        ));
        spans
    }

    fn time_column(&self, time: &Option<String>, time_width: usize, selected: bool) -> (spans: Vec<
        Span,
    >)
        ensures
            span_views(spans@) == time_spans(
                text_of(*time),
                time_width as nat,
                self@.kind,
                selected,
            ),
    {
        let mut spans: Vec<Span> = Vec::new();
        assert(span_views(spans@) =~= Seq::<SpanView>::empty());
        if let Some(t) = time {
            let mut col = String::new();
            col.push(' ');
            push_pad_right(&mut col, t.as_str(), time_width);
            assert(col@ =~= seq![' '] + pad_right_text(t@, time_width as nat));
            push_span(&mut spans, col, tone_of(self.kind), selected);
        }
        assert(span_views(spans@) =~= time_spans(
            text_of(*time),
            time_width as nat,
            self@.kind,
            selected,
        ));
        spans
    }

    fn name_column(&self) -> (text: String)
        ensures
            text@ == seq![' '] + self@.name,
    {
        let mut text = String::new();
        text.push(' ');
        text.append(self.name.as_str());
        assert(text@ =~= seq![' '] + self@.name);
        text
    }

    /// The spans of the row that shows this entry, with `time` as the text
    /// of its change time.
    pub fn row(
        &self,
        gauge_width: usize,
        listing_stats: &ListingStats,
        user_width: usize,
        group_width: usize,
        mtime_width: usize,
        time: Option<String>,
        selected: bool,
        show_owner: bool,
    ) -> (spans: Vec<Span>)
        requires
            6 <= gauge_width <= u32::MAX,
        ensures
            span_views(spans@) == row_spans(
                self@,
                gauge_width as int,
                *listing_stats,
                user_width as nat,
                group_width as nat,
                mtime_width as nat,
                text_of(time),
                selected,
                show_owner,
            ),
    {
        let tone = tone_of(self.kind);
        let mut spans: Vec<Span> = Vec::new();
        assert(span_views(spans@) =~= Seq::<SpanView>::empty());
        push_span(&mut spans, self.size_column(), tone, selected);
        push_spans(
            &mut spans,
            gauge(
                Ratio { part: count_or_zero(self.size), whole: listing_stats.max_size },
                share(self.size, listing_stats.total_size),
                gauge_width,
                selected,
            ),
        );
        push_span(&mut spans, self.count_column(), tone, selected);
        push_spans(
            &mut spans,
            gauge(
                Ratio { part: count_or_zero(self.rentries), whole: listing_stats.max_rentries },
                share(self.rentries, listing_stats.total_rentries),
                gauge_width,
                selected,
            ),
        );
        let mut bar = String::new();
        bar.push('\u{2503}');
        assert(bar@ =~= seq!['\u{2503}']);
        push_span(&mut spans, bar, tone, selected);
        if show_owner {
            push_spans(&mut spans, self.owner_columns(user_width, group_width, selected));
        } else {
            assert(span_views(spans@) + Seq::<SpanView>::empty() =~= span_views(spans@));
        }
        push_spans(&mut spans, self.time_column(&time, mtime_width, selected));
        push_span(&mut spans, self.name_column(), tone, selected);
        spans
    }

    /// The spans of the row that shows this entry.
    ///
    /// The change time is shown if `show_mtime` asks for it and the entry has
    /// one. Its text is its date in the zone `offset` seconds east of
    /// Greenwich: a date of `current_year` with the time of day, any other
    /// with its year. A time behind the year 9999 has no text.
    pub fn to_listitem(
        &self,
        gauge_width: usize,
        listing_stats: &ListingStats,
        user_width: usize,
        group_width: usize,
        mtime_width: usize,
        current_year: isize,
        selected: bool,
        show_owner: bool,
        show_mtime: bool,
        offset: i32,
    ) -> (spans: Vec<Span>)
        requires
            6 <= gauge_width <= u32::MAX,
        ensures
            span_views(spans@) == row_spans(
                self@,
                gauge_width as int,
                *listing_stats,
                user_width as nat,
                group_width as nat,
                mtime_width as nat,
                row_time(self@, show_mtime, offset, current_year),
                selected,
                show_owner,
            ),
    {
        let time = if show_mtime {
            match self.ctime {
                Some(ctime) => change_time_text(ctime, offset, current_year),
                None => None,
            }
        } else {
            None
        };
        self.row(
            gauge_width,
            listing_stats,
            user_width,
            group_width,
            mtime_width,
            time,
            selected,
            show_owner,
        )
    }
}

/// The length of a text in bytes.
pub open spec fn byte_len(text: Seq<char>) -> nat {
    encode_utf8(text).len()
}

/// The length in bytes of the longest user name among `s`.
pub open spec fn widest_user(s: Seq<DirEntryView>) -> nat
    decreases s.len(),
{
    if s.len() == 0 {
        0
    } else {
        let rest = widest_user(s.drop_last());
        match s.last().user {
            Some(user) => if byte_len(user) > rest {
                byte_len(user)
            } else {
                rest
            },
            None => rest,
        }
    }
}

/// The length in bytes of the longest group name among `s`.
pub open spec fn widest_group(s: Seq<DirEntryView>) -> nat
    decreases s.len(),
{
    if s.len() == 0 {
        0
    } else {
        let rest = widest_group(s.drop_last());
        match s.last().group {
            Some(group) => if byte_len(group) > rest {
                byte_len(group)
            } else {
                rest
            },
            None => rest,
        }
    }
}

/// The title of a listing: the directory, its total size and the number of
/// entries below it.
pub open spec fn title_text(cwd: Seq<char>, stats: ListingStats) -> Seq<char> {
    seq![' '] + cwd + seq![' ', '\u{2501}', '\u{2501}', ' '] + size_text(
        Some(stats.total_size),
        false,
    ) + seq![',', ' '] + rentries_text(Some(stats.total_rentries), false) + " files "@
}

/// The title of a listing.
pub fn list_title(cwd: &str, stats: &ListingStats) -> (title: String)
    ensures
        title@ == title_text(cwd@, *stats),
{
    let mut title = String::new();
    title.push(' ');
    title.append(cwd);
    title.push(' ');
    title.push('\u{2501}');
    title.push('\u{2501}');
    title.push(' ');
    title.append(size_str(Some(stats.total_size), false).as_str());
    title.push(',');
    title.push(' ');
    title.append(rentries_str(Some(stats.total_rentries), false).as_str());
    title.append(" files ");
    assert(title@ =~= title_text(cwd@, *stats));
    title
}

/// The widths of the user and the group column of `listing`: those of the
/// longest names, in bytes, or nothing if owners are not shown.
pub fn owner_widths(listing: &DirListing, show_owner: bool) -> (widths: (usize, usize))
    requires
        listing.wf(),
    ensures
        widths.0 == if show_owner {
            widest_user(listing@.displayed())
        } else {
            0
        },
        widths.1 == if show_owner {
            widest_group(listing@.displayed())
        } else {
            0
        },
{
    if !show_owner {
        return (0, 0);
    }
    let shown = listing.iter_entries();
    let ghost s = listing@.displayed();
    let n = shown.len();
    let mut user_width: usize = 0;
    let mut group_width: usize = 0;
    let mut i: usize = 0;
    assert(s.take(0) =~= Seq::<DirEntryView>::empty());
    assert(s.len() == n);
    while i < n
        invariant
            n == shown.len(),
            n == s.len(),
            i <= n,
            forall|k: int| 0 <= k < n ==> (#[trigger] shown@[k])@ == s[k],
            user_width == widest_user(s.take(i as int)),
            group_width == widest_group(s.take(i as int)),
        decreases n - i,
    {
        proof {
            let upto = s.take(i + 1);
            assert(upto.drop_last() =~= s.take(i as int));
            assert(upto.last() == shown@[i as int]@);
        }
        if let Some(user) = &shown[i].user {
            let len = user.as_str().as_bytes().len();
            if len > user_width {
                user_width = len;
            }
        }
        if let Some(group) = &shown[i].group {
            let len = group.as_str().as_bytes().len();
            if len > group_width {
                group_width = len;
            }
        }
        i += 1;
    }
    assert(s.take(n as int) =~= s);
    (user_width, group_width)
}

/// What a listing looks like: its title and the spans of its rows.
#[derive(Debug)]
pub struct ListPicture {
    pub title: String,
    pub rows: Vec<Vec<Span>>,
}

/// The picture of `listing`, the listing of the directory `cwd`: one row
/// for each displayed entry, in display order, the row under the cursor
/// marked as selected.
///
/// `zone` gives, for a moment in seconds since the epoch, how many seconds
/// east of Greenwich the local time zone lies at that moment. It is asked
/// about each change time that a row is to show, and about nothing else.
pub fn render_list<F: Fn(i64) -> i32>(
    listing: &DirListing,
    cwd: &str,
    show_owner: bool,
    show_mtime: bool,
    current_year: isize,
    zone: F,
) -> (picture: ListPicture)
    requires
        listing.wf(),
        forall|secs: i64| 0 <= secs <= LAST_SHOWN_SECOND ==> call_requires(zone, (secs,)),
    ensures
        picture.title@ == title_text(cwd@, listing@.stats),
        picture.rows.len() == listing@.len(),
        forall|i: int|
            0 <= i < listing@.len() ==> is_row(
                span_views(#[trigger] picture.rows@[i]@),
                listing@.displayed()[i],
                GAUGE_WIDTH as int,
                listing@.stats,
                if show_owner {
                    widest_user(listing@.displayed())
                } else {
                    0
                },
                if show_owner {
                    widest_group(listing@.displayed())
                } else {
                    0
                },
                if show_mtime {
                    MTIME_FMT_WIDTH as nat
                } else {
                    0
                },
                listing@.selected == Some(i as usize),
                show_owner,
                show_mtime,
                current_year,
                zone,
            ),
{
    let stats = listing.stats();
    let title = list_title(cwd, &stats);
    let (user_width, group_width) = owner_widths(listing, show_owner);
    let mtime_width = if show_mtime {
        MTIME_FMT_WIDTH
    } else {
        0
    };
    let selected = listing.selected();
    let shown = listing.iter_entries();
    let n = shown.len();
    let mut rows: Vec<Vec<Span>> = Vec::new();
    let mut i: usize = 0;
    while i < n
        invariant
            n == shown.len(),
            n == listing@.len(),
            i <= n,
            rows.len() == i,
            stats == listing@.stats,
            selected == listing@.selected,
            forall|secs: i64| 0 <= secs <= LAST_SHOWN_SECOND ==> call_requires(zone, (secs,)),
            forall|k: int| 0 <= k < n ==> (#[trigger] shown@[k])@ == listing@.displayed()[k],
            forall|k: int|
                0 <= k < i ==> is_row(
                    span_views(#[trigger] rows@[k]@),
                    listing@.displayed()[k],
                    GAUGE_WIDTH as int,
                    stats,
                    user_width as nat,
                    group_width as nat,
                    mtime_width as nat,
                    selected == Some(k as usize),
                    show_owner,
                    show_mtime,
                    current_year,
                    zone,
                ),
        decreases n - i,
    {
        let on_cursor = match selected {
            Some(s) => s == i,
            None => false,
        };
        let offset: i32 = match time_to_show(shown[i], show_mtime) {
            Some(secs) => zone(secs),
            None => 0,
        };
        let row = shown[i].to_listitem(
            GAUGE_WIDTH,
            &stats,
            user_width,
            group_width,
            mtime_width,
            current_year,
            on_cursor,
            show_owner,
            show_mtime,
            offset,
        );
        rows.push(row);
        i += 1;
    }
    ListPicture { title, rows }
}

/// The change time that the row of `entry` is to show and that can be
/// written as a date, as a moment in seconds since the epoch.
fn time_to_show(entry: &DirEntry, show_mtime: bool) -> (secs: Option<i64>)
    ensures
        match secs {
            Some(t) => time_asked(entry@, show_mtime) is Some && time_asked(entry@, show_mtime)->0
                <= LAST_SHOWN_SECOND && t == time_asked(entry@, show_mtime)->0,
            None => !(time_asked(entry@, show_mtime) is Some && time_asked(entry@, show_mtime)->0
                <= LAST_SHOWN_SECOND),
        },
{
    if !show_mtime {
        return None;
    }
    match entry.ctime {
        Some(ctime) => if ctime as u64 <= LAST_SHOWN_SECOND as u64 {
            Some(ctime as i64)
        } else {
            None
        },
        None => None,
    }
}

} // verus!
