//! The usage gauge: a bar of fixed width that is filled in proportion to a
//! share, with the share as a percentage written into its middle.

use vstd::prelude::*;

use crate::num::clamp;
use crate::text::{
    chars_of, decimal_text, digit_char, lemma_decimal_text_len, pad_left_text, push_decimal,
    push_pad_left, push_repeated, repeated,
};

verus! {

/// A share: `part` out of `whole`. A share of nothing is zero.
#[derive(Debug, Clone, Copy, PartialEq, Eq, Structural)]
pub struct Ratio {
    pub part: usize,
    pub whole: usize,
}

/// How a span is to be drawn. The colours behind the names are the
/// caller's.
#[derive(Debug, Clone, Copy, PartialEq, Eq, Structural)]
pub enum Tone {
    /// Text of a row that shows a directory.
    DirText,
    /// Text of a row that shows anything else.
    OtherText,
    /// A stretch of gauge: the fill in the gauge colour on the row's ground.
    Gauge,
    /// Label characters that the fill has reached: ground and gauge colour
    /// change places.
    GaugeInverted,
}

/// A run of characters that are drawn alike.
#[derive(Debug)]
pub struct Span {
    pub text: String,
    pub tone: Tone,
    /// Whether the span belongs to the row that the cursor is on.
    pub selected: bool,
}

/// A `Span` with its text as a character sequence.
pub struct SpanView {
    pub text: Seq<char>,
    pub tone: Tone,
    pub selected: bool,
}

impl View for Span {
    type V = SpanView;

    open spec fn view(&self) -> SpanView {
        SpanView { text: self.text@, tone: self.tone, selected: self.selected }
    }
}

/// The spans of `v`, each by its view.
pub open spec fn span_views(v: Seq<Span>) -> Seq<SpanView> {
    v.map_values(|s: Span| s@)
}

/// How many character cells `spans` take up side by side.
pub open spec fn cells(spans: Seq<SpanView>) -> nat
    decreases spans.len(),
{
    if spans.len() == 0 {
        0
    } else {
        cells(spans.drop_last()) + spans.last().text.len()
    }
}

/// The share `r` of `scale`, rounded to the nearest whole number, a half
/// rounded up.
#[verifier::opaque]
pub open spec fn scaled(r: Ratio, scale: int) -> int {
    if r.whole == 0 {
        0
    } else {
        (2 * (r.part * scale) + r.whole) / (2 * r.whole)
    }
}

/// `num / den` in tenths, rounded to the nearest tenth, a half rounded to
/// the even tenth. Nothing divided by nothing is zero. The rounding is that
/// of the exact quotient, not of a floating-point number near it.
pub open spec fn tenths(num: int, den: int) -> int {
    if den == 0 {
        0
    } else {
        let q = (10 * num) / den;
        let r = (10 * num) % den;
        if 2 * r > den || (2 * r == den && q % 2 == 1) {
            q + 1
        } else {
            q
        }
    }
}

/// A number of tenths written with one decimal place.
pub open spec fn one_decimal(tenths: int) -> Seq<char> {
    decimal_text((tenths / 10) as nat) + seq!['.', digit_char((tenths % 10) as nat)]
}

/// The label of a gauge: the share in percent with one decimal place,
/// right-aligned in five characters, and a percent sign.
///
/// The decimal place is rounded as `tenths` rounds, on the exact share, a
/// tie going to the even tenth: 125 of 100000 are `  0.1%`. A share held in
/// binary floating point rounds some ties the other way, as it seldom holds
/// a tie exactly.
pub open spec fn percent_label(share: Ratio) -> Seq<char> {
    pad_left_text(one_decimal(tenths(100 * share.part, share.whole as int)), 5).push('%')
}

/// The glyph of a cell of which `eighths` eighths are filled from the left,
/// for one to seven eighths.
pub open spec fn partial_block(eighths: int) -> char {
    if eighths == 1 {
        '\u{258F}'
    } else if eighths == 2 {
        '\u{258E}'
    } else if eighths == 3 {
        '\u{258D}'
    } else if eighths == 4 {
        '\u{258C}'
    } else if eighths == 5 {
        '\u{258B}'
    } else if eighths == 6 {
        '\u{258A}'
    } else {
        '\u{2589}'
    }
}

/// A stretch of gauge `width` cells wide of which `eighths` eighths of a
/// cell are filled: full blocks, then a partly filled cell where the fill
/// ends within one, then blanks.
pub open spec fn bar_text(eighths: int, width: int) -> Seq<char> {
    let full = eighths / 8;
    let rest = eighths % 8;
    if rest > 0 {
        repeated('\u{2588}', full as nat).push(partial_block(rest)) + repeated(
            ' ',
            (width - full - 1) as nat,
        )
    } else {
        repeated('\u{2588}', full as nat) + repeated(' ', (width - full) as nat)
    }
}

/// The column at which the label of a gauge of `width` cells starts.
pub open spec fn label_start(width: int) -> int {
    width / 2 - 3
}

/// How the fill of a gauge falls on its three parts.
pub struct Shape {
    /// The eighths filled of the stretch in front of the label.
    pub first_fill: int,
    /// How many characters of the label the fill has reached.
    pub reached: int,
    /// The width of the stretch behind the label.
    pub room: int,
    /// The eighths filled of the stretch behind the label.
    pub last_fill: int,
}

/// How a fill of `fraction` falls on a gauge of `width` cells whose label
/// has `label_len` characters. The fill takes `fraction` of the width, to
/// the nearest eighth of a cell, and passes through the stretch in front of
/// the label, the label, and the stretch behind it in turn; of the label it
/// has reached as many characters as it covers whole cells, to the nearest.
pub open spec fn shape(fraction: Ratio, label_len: int, width: int) -> Shape {
    let start = label_start(width);
    let filled = scaled(fraction, 8 * width);
    let room = clamp(width - start - label_len, 0, width);
    Shape {
        first_fill: clamp(filled, 0, 8 * start),
        reached: clamp(scaled(fraction, width) - start, 0, label_len),
        room,
        last_fill: clamp(filled - 8 * (start + label_len), 0, 8 * room),
    }
}

/// The label of a gauge that shows the share `percent`; none without one.
pub open spec fn label_of_gauge(percent: Option<Ratio>) -> Seq<char> {
    match percent {
        Some(share) => percent_label(share),
        None => Seq::empty(),
    }
}

/// The spans of a gauge of `width` cells that shows `fraction` as fill and
/// `percent` as label.
///
/// A stretch of gauge runs up to the label, the label follows, and a second
/// stretch runs to the end, filled as `shape` says. Of the label, the
/// characters that the fill has reached come first, inverted; the others
/// follow. Without a label the two stretches meet.
#[verifier::opaque]
pub open spec fn gauge_spans(fraction: Ratio, percent: Option<Ratio>, width: int, selected: bool) -> Seq<
    SpanView,
> {
    let label = label_of_gauge(percent);
    let s = shape(fraction, label.len() as int, width);
    let first = SpanView {
        text: bar_text(s.first_fill, label_start(width)),
        tone: Tone::Gauge,
        selected,
    };
    let lit = SpanView { text: label.take(s.reached), tone: Tone::GaugeInverted, selected };
    let unlit = SpanView { text: label.skip(s.reached), tone: Tone::Gauge, selected };
    let last = SpanView { text: bar_text(s.last_fill, s.room), tone: Tone::Gauge, selected };
    seq![first] + (if s.reached > 0 {
        seq![lit]
    } else {
        Seq::empty()
    }) + (if s.reached < label.len() {
        seq![unlit]
    } else {
        Seq::empty()
    }) + seq![last]
}

/// A share as the fraction `a / b`; a share of nothing is taken as zero.
pub fn safe_div(a: usize, b: usize) -> (r: Ratio)
    ensures
        r == (Ratio { part: a, whole: b }),
{
    Ratio { part: a, whole: b }
}

/// The share `r` of `scale`, rounded to the nearest whole number.
fn scaled_share(r: Ratio, scale: u64) -> (n: u128)
    requires
        scale <= 0x8_0000_0000,
    ensures
        n == scaled(r, scale as int),
{
    reveal(scaled);
    if r.whole == 0 {
        0
    } else {
        let part = r.part as u128;
        let whole = r.whole as u128;
        assert(part * scale <= 0x1_0000_0000_0000_0000 * 0x8_0000_0000) by (nonlinear_arith)
            requires
                part <= 0x1_0000_0000_0000_0000,
                scale <= 0x8_0000_0000,
        ;
        (2 * (part * (scale as u128)) + whole) / (2 * whole)
    }
}

/// `num / den` in tenths, rounded to the nearest tenth.
pub(crate) fn tenths_of(num: u128, den: usize) -> (n: u128)
    requires
        num <= 1000 * usize::MAX,
    ensures
        n == tenths(num as int, den as int),
        den != 0 && num <= den ==> n <= 10,
        den != 0 && num <= 100 * den ==> n <= 1000,
{
    if den == 0 {
        0
    } else {
        let d = den as u128;
        let q = (10 * num) / d;
        let r = (10 * num) % d;
        proof {
            let (n, m) = (num as int, den as int);
            assert(10 * n == m * ((10 * n) / m) + (10 * n) % m) by (nonlinear_arith)
                requires
                    m > 0,
            ;
            if n <= m {
                assert((10 * n) / m <= 10) by (nonlinear_arith)
                    requires
                        m > 0,
                        n <= m,
                ;
                if (10 * n) / m == 10 {
                    assert((10 * n) % m == 0) by (nonlinear_arith)
                        requires
                            m > 0,
                            n <= m,
                            (10 * n) / m == 10,
                            10 * n == m * ((10 * n) / m) + (10 * n) % m,
                    ;
                }
            }
            if n <= 100 * m {
                assert((10 * n) / m <= 1000) by (nonlinear_arith)
                    requires
                        m > 0,
                        n <= 100 * m,
                ;
                if (10 * n) / m == 1000 {
                    assert((10 * n) % m == 0) by (nonlinear_arith)
                        requires
                            m > 0,
                            n <= 100 * m,
                            (10 * n) / m == 1000,
                            10 * n == m * ((10 * n) / m) + (10 * n) % m,
                    ;
                }
            }
        }
        if 2 * r > d || (2 * r == d && q % 2 == 1) {
            q + 1
        } else {
            q
        }
    }
}

/// Appends a number of tenths, written with one decimal place.
pub fn push_one_decimal(out: &mut String, tenths: u128)
    ensures
        final(out)@ == old(out)@ + one_decimal(tenths as int),
{
    push_decimal(out, tenths / 10);
    out.push('.');
    let ghost with_dot = out@;
    push_decimal(out, tenths % 10);
    proof {
        assert(decimal_text((tenths % 10) as nat) =~= seq![digit_char((tenths % 10) as nat)]);
        assert(out@ =~= old(out)@ + one_decimal(tenths as int));
    }
}

/// The label of a gauge that shows `share`.
fn label_of(share: Ratio) -> (label: Vec<char>)
    ensures
        label@ == percent_label(share),
{
    let mut number = String::new();
    push_one_decimal(&mut number, tenths_of(100 * (share.part as u128), share.whole));
    let mut text = String::new();
    push_pad_left(&mut text, number.as_str(), 5);
    text.push('%');
    assert(number@ =~= one_decimal(tenths(100 * share.part, share.whole as int)));
    assert(text@ =~= percent_label(share));
    chars_of(text.as_str())
}

fn partial_glyph(eighths: usize) -> (c: char)
    requires
        1 <= eighths <= 7,
    ensures
        c == partial_block(eighths as int),
{
    if eighths == 1 {
        '\u{258F}'
    } else if eighths == 2 {
        '\u{258E}'
    } else if eighths == 3 {
        '\u{258D}'
    } else if eighths == 4 {
        '\u{258C}'
    } else if eighths == 5 {
        '\u{258B}'
    } else if eighths == 6 {
        '\u{258A}'
    } else {
        '\u{2589}'
    }
}

/// A stretch of gauge `width` cells wide with `eighths` eighths filled.
fn bar(eighths: u64, width: usize, selected: bool) -> (span: Span)
    requires
        eighths <= 8 * width,
    ensures
        span@ == (SpanView { text: bar_text(eighths as int, width as int), tone: Tone::Gauge, selected }),
{
    let full = (eighths / 8) as usize;
    let rest = (eighths % 8) as usize;
    let mut text = String::new();
    push_repeated(&mut text, '\u{2588}', full);
    if rest > 0 {
        text.push(partial_glyph(rest));
        push_repeated(&mut text, ' ', width - full - 1);
    } else {
        push_repeated(&mut text, ' ', width - full);
    }
    assert(text@ =~= bar_text(eighths as int, width as int));
    Span { text, tone: Tone::Gauge, selected }
}

/// The characters `from..to` of `label` as a span.
fn label_part(label: &Vec<char>, from: usize, to: usize, tone: Tone, selected: bool) -> (span: Span)
    requires
        from <= to <= label.len(),
    ensures
        span@ == (SpanView { text: label@.subrange(from as int, to as int), tone, selected }),
{
    let mut text = String::new();
    let mut i: usize = from;
    assert(text@ =~= label@.subrange(from as int, from as int));
    while i < to
        invariant
            from <= i <= to <= label.len(),
            text@ == label@.subrange(from as int, i as int),
        decreases to - i,
    {
        text.push(label[i]);
        i += 1;
        assert(text@ =~= label@.subrange(from as int, i as int));
    }
    Span { text, tone, selected }
}

/// How the fill of a gauge falls on its parts, in machine numbers.
struct Fill {
    first_fill: u64,
    reached: usize,
    room: usize,
    last_fill: u64,
}

/// How a fill of `fraction` falls on a gauge of `width` cells whose label
/// has `len` characters.
fn measure(fraction: Ratio, len: usize, width: usize) -> (fill: Fill)
    requires
        6 <= width <= u32::MAX,
    ensures
        fill.first_fill == shape(fraction, len as int, width as int).first_fill,
        fill.reached == shape(fraction, len as int, width as int).reached,
        fill.room == shape(fraction, len as int, width as int).room,
        fill.last_fill == shape(fraction, len as int, width as int).last_fill,
        fill.first_fill <= 8 * label_start(width as int),
        fill.last_fill <= 8 * fill.room,
        fill.reached <= len,
{
    let start = width / 2 - 3;
    let filled = scaled_share(fraction, 8 * (width as u64));
    let cells = scaled_share(fraction, width as u64);
    let reached: usize = if cells <= start as u128 {
        0
    } else if cells - (start as u128) >= len as u128 {
        len
    } else {
        (cells - (start as u128)) as usize
    };
    let room: usize = if len >= width - start {
        0
    } else {
        width - start - len
    };
    let first_fill: u64 = if filled >= 8 * (start as u128) {
        8 * (start as u64)
    } else {
        filled as u64
    };
    let behind: u128 = 8 * ((start as u128) + (len as u128));
    let last_fill: u64 = if filled <= behind {
        0
    } else if filled - behind >= 8 * (room as u128) {
        8 * (room as u64)
    } else {
        (filled - behind) as u64
    };
    Fill { first_fill, reached, room, last_fill }
}

/// Draw a gauge bar of `width` cells that is filled to `fraction`. The
/// percentage `percent`, where there is one, is written as a number in the
/// middle of the gauge.
pub fn gauge(fraction: Ratio, percent: Option<Ratio>, width: usize, selected: bool) -> (spans: Vec<
    Span,
>)
    requires
        6 <= width <= u32::MAX,
    ensures
        span_views(spans@) == gauge_spans(fraction, percent, width as int, selected),
{
    let label: Vec<char> = match percent {
        Some(share) => label_of(share),
        None => Vec::new(),
    };
    let len = label.len();
    let fill = measure(fraction, len, width);
    let first = bar(fill.first_fill, width / 2 - 3, selected);
    let last = bar(fill.last_fill, fill.room, selected);
    let mut spans: Vec<Span> = Vec::new();
    spans.push(first);
    if fill.reached > 0 {
        let lit = label_part(&label, 0, fill.reached, Tone::GaugeInverted, selected);
        assert(label@.subrange(0, fill.reached as int) =~= label@.take(fill.reached as int));
        spans.push(lit);
    }
    if fill.reached < len {
        let unlit = label_part(&label, fill.reached, len, Tone::Gauge, selected);
        assert(label@.subrange(fill.reached as int, len as int) =~= label@.skip(
            fill.reached as int,
        ));
        spans.push(unlit);
    }
    spans.push(last);
    proof {
        reveal(gauge_spans);
        let spec = gauge_spans(fraction, percent, width as int, selected);
        assert(label@ == label_of_gauge(percent));
        assert(span_views(spans@).len() == spec.len());
        assert forall|i: int| 0 <= i < spec.len() implies span_views(spans@)[i] == spec[i] by {
            assert(span_views(spans@)[i] == spans@[i]@);
        }
        assert(span_views(spans@) =~= spec);
    }
    spans
}

/// The label of a share that is no more than the whole takes six cells.
pub proof fn lemma_percent_label_len(share: Ratio)
    requires
        share.part <= share.whole,
    ensures
        percent_label(share).len() == 6,
{
    let t = tenths(100 * share.part, share.whole as int);
    let (n, m) = (100 * share.part as int, share.whole as int);
    if m != 0 {
        assert(10 * n == m * ((10 * n) / m) + (10 * n) % m) by (nonlinear_arith)
            requires
                m > 0,
        ;
        assert(0 <= (10 * n) / m <= 1000) by (nonlinear_arith)
            requires
                m > 0,
                0 <= n <= 100 * m,
        ;
        if (10 * n) / m == 1000 {
            assert((10 * n) % m == 0) by (nonlinear_arith)
                requires
                    m > 0,
                    n <= 100 * m,
                    (10 * n) / m == 1000,
                    10 * n == m * ((10 * n) / m) + (10 * n) % m,
            ;
        }
    }
    assert(0 <= t <= 1000);
    lemma_decimal_text_len((t / 10) as nat);
}

/// A stretch of gauge takes as many cells as it is wide, however far it is
/// filled.
pub proof fn lemma_bar_text_len(eighths: int, width: int)
    requires
        0 <= eighths <= 8 * width,
    ensures
        bar_text(eighths, width).len() == width,
{
}

/// A gauge takes exactly as many cells as it is wide, whatever its fill, as
/// long as its label stands for a share that is no more than the whole.
pub proof fn lemma_gauge_cells(fraction: Ratio, percent: Option<Ratio>, width: int, selected: bool)
    requires
        6 <= width,
        match percent {
            Some(share) => share.part <= share.whole,
            None => true,
        },
    ensures
        cells(gauge_spans(fraction, percent, width, selected)) == width,
{
    reveal(gauge_spans);
    let start = label_start(width);
    let label = label_of_gauge(percent);
    if let Some(share) = percent {
        lemma_percent_label_len(share);
    }
    let s = shape(fraction, label.len() as int, width);
    assert(start + label.len() + s.room == width);
    lemma_bar_text_len(s.first_fill, start);
    lemma_bar_text_len(s.last_fill, s.room);
    let spans = gauge_spans(fraction, percent, width, selected);
    let first = seq![spans[0]];
    assert(first.drop_last() =~= Seq::<SpanView>::empty());
    assert(cells(first) == start) by {
        assert(cells(first.drop_last()) == 0);
    }
    if s.reached > 0 && s.reached < label.len() {
        let two = seq![spans[0], spans[1]];
        let three = seq![spans[0], spans[1], spans[2]];
        assert(two.drop_last() =~= first);
        assert(three.drop_last() =~= two);
        assert(spans.drop_last() =~= three);
        assert(cells(two) == start + s.reached);
        assert(cells(three) == start + label.len());
    } else if s.reached > 0 || s.reached < label.len() {
        let two = seq![spans[0], spans[1]];
        assert(two.drop_last() =~= first);
        assert(spans.drop_last() =~= two);
        assert(cells(two) == start + label.len());
    } else {
        assert(spans.drop_last() =~= first);
    }
}

/// Whether the gauge belongs to the row under the cursor changes how its
/// spans are marked and nothing else: the spans have the same texts and the
/// same tones either way.
pub proof fn lemma_selection_keeps_geometry(fraction: Ratio, percent: Option<Ratio>, width: int)
    ensures
        gauge_spans(fraction, percent, width, true).len() == gauge_spans(
            fraction,
            percent,
            width,
            false,
        ).len(),
        forall|i: int|
            0 <= i < gauge_spans(fraction, percent, width, true).len() ==> {
                &&& (#[trigger] gauge_spans(fraction, percent, width, true)[i]).text == gauge_spans(
                    fraction,
                    percent,
                    width,
                    false,
                )[i].text
                &&& gauge_spans(fraction, percent, width, true)[i].tone == gauge_spans(
                    fraction,
                    percent,
                    width,
                    false,
                )[i].tone
            },
{
    reveal(gauge_spans);
}

/// Without a label the two stretches of a gauge are filled, between them, to
/// the share of the width that the fraction is, in eighths of a cell to the
/// nearest, and no further than the gauge is wide.
pub proof fn lemma_fill_without_label(fraction: Ratio, width: int)
    requires
        6 <= width,
    ensures
        shape(fraction, 0, width).first_fill + shape(fraction, 0, width).last_fill == clamp(
            scaled(fraction, 8 * width),
            0,
            8 * width,
        ),
        label_start(width) + shape(fraction, 0, width).room == width,
{
}

} // verus!
