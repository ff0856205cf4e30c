//! Reading what the filesystem reports: its kind, the recursive attributes of
//! a directory (as the text they are stored in), and the names behind numeric
//! owner ids.

use std::collections::HashMap;
use vstd::prelude::*;

use crate::text::{chars_of, decimal, decimal_text};

verus! {

/// The kind of a filesystem, by the magic number it reports.
#[derive(Debug, Clone, Copy)]
pub struct FSType {
    inner: i64,
}

impl FSType {
    /// The magic number.
    pub closed spec fn magic(self) -> i64 {
        self.inner
    }

    /// Whether a filesystem with this magic number keeps recursive totals.
    pub open spec fn accounts_recursively(magic: i64) -> bool {
        magic == 0x00c36400 || magic == 0x65735546
    }

    /// The kind of a filesystem that reports `magic`.
    pub fn new(magic: i64) -> (fs: FSType)
        ensures
            fs.magic() == magic,
    {
        FSType { inner: magic }
    }

    /// Whether the filesystem keeps recursive totals.
    pub fn is_ceph(self: FSType) -> (r: bool)
        ensures
            r == Self::accounts_recursively(self.magic()),
    {
        self.inner == 0x00c36400 || self.inner == 0x65735546
    }
}

/// The kind of the filesystem whose probe gave `magic`; a failed probe gives
/// none.
pub fn get_fs(magic: Option<i64>) -> (fs: Option<FSType>)
    ensures
        match magic {
            Some(m) => fs matches Some(t) && t.magic() == m,
            None => fs is None,
        },
{
    match magic {
        Some(m) => Some(FSType::new(m)),
        None => None,
    }
}

/// The characters that count as white space around an attribute's text.
pub open spec fn is_whitespace(c: char) -> bool {
    let n = c as int;
    ||| 0x09 <= n <= 0x0D
    ||| n == 0x20
    ||| n == 0x85
    ||| n == 0xA0
    ||| n == 0x1680
    ||| 0x2000 <= n <= 0x200A
    ||| n == 0x2028
    ||| n == 0x2029
    ||| n == 0x202F
    ||| n == 0x205F
    ||| n == 0x3000
}

/// How many white-space characters `s` begins with.
pub open spec fn leading_whitespace(s: Seq<char>) -> nat
    decreases s.len(),
{
    if s.len() > 0 && is_whitespace(s[0]) {
        1 + leading_whitespace(s.drop_first())
    } else {
        0
    }
}

/// How many white-space characters `s` ends with.
pub open spec fn trailing_whitespace(s: Seq<char>) -> nat
    decreases s.len(),
{
    if s.len() > 0 && is_whitespace(s.last()) {
        1 + trailing_whitespace(s.drop_last())
    } else {
        0
    }
}

/// `s` without the white space at its two ends.
pub open spec fn trimmed(s: Seq<char>) -> Seq<char> {
    if leading_whitespace(s) >= s.len() {
        Seq::empty()
    } else {
        s.subrange(leading_whitespace(s) as int, s.len() - trailing_whitespace(s))
    }
}

/// The part of `s` in front of its first full stop; all of `s` if it has none.
pub open spec fn before_dot(s: Seq<char>) -> Seq<char>
    decreases s.len(),
{
    if s.len() == 0 || s[0] == '.' {
        Seq::empty()
    } else {
        seq![s[0]] + before_dot(s.drop_first())
    }
}

/// Whether `c` is one of the digits `0` to `9`.
pub open spec fn is_digit(c: char) -> bool {
    0x30 <= c as int <= 0x39
}

/// Whether `s` holds nothing but digits.
pub open spec fn all_digits(s: Seq<char>) -> bool {
    forall|i: int| 0 <= i < s.len() ==> is_digit(#[trigger] s[i])
}

/// The number that the decimal digits `s` write.
pub open spec fn digits_value(s: Seq<char>) -> nat
    decreases s.len(),
{
    if s.len() == 0 {
        0
    } else {
        digits_value(s.drop_last()) * 10 + (s.last() as int - 0x30) as nat
    }
}

/// What `s` says as an unsigned number: decimal digits, at least one, with
/// one `+` allowed in front of them, the value within `usize`. Anything else
/// says nothing.
pub open spec fn parse_unsigned(s: Seq<char>) -> Option<usize> {
    let body = if s.len() > 0 && s[0] == '+' {
        s.drop_first()
    } else {
        s
    };
    if body.len() > 0 && all_digits(body) && digits_value(body) <= usize::MAX {
        Some(digits_value(body) as usize)
    } else {
        None
    }
}

proof fn lemma_digits_value_prefix(s: Seq<char>, k: int)
    requires
        0 <= k <= s.len(),
        all_digits(s),
    ensures
        digits_value(s.take(k)) <= digits_value(s),
    decreases s.len() - k,
{
    if k < s.len() {
        let longer = s.take(k + 1);
        assert(longer.drop_last() =~= s.take(k));
        assert(is_digit(s[k]));
        assert(longer.last() == s[k]);
        lemma_digits_value_prefix(s, k + 1);
    } else {
        assert(s.take(k) =~= s);
    }
}

fn code_point(c: char) -> (n: u32)
    ensures
        n as int == c as int,
{
    c as u32
}

fn whitespace(c: char) -> (r: bool)
    ensures
        r == is_whitespace(c),
{
    let n = code_point(c);
    (0x09 <= n && n <= 0x0D) || n == 0x20 || n == 0x85 || n == 0xA0 || n == 0x1680 || (0x2000 <= n
        && n <= 0x200A) || n == 0x2028 || n == 0x2029 || n == 0x202F || n == 0x205F || n == 0x3000
}

/// The bounds of `trimmed(v@)` within `v`.
fn trim_bounds(v: &Vec<char>) -> (r: (usize, usize))
    ensures
        r.0 <= r.1 <= v.len(),
        v@.subrange(r.0 as int, r.1 as int) == trimmed(v@),
{
    let n = v.len();
    let mut lo: usize = 0;
    assert(v@.skip(0) =~= v@);
    while lo < n && whitespace(v[lo])
        invariant
            n == v.len(),
            lo <= n,
            leading_whitespace(v@) == lo + leading_whitespace(v@.skip(lo as int)),
        decreases n - lo,
    {
        assert(v@.skip(lo as int).drop_first() =~= v@.skip(lo + 1));
        lo += 1;
    }
    if lo == n {
        assert(v@.subrange(n as int, n as int) =~= Seq::<char>::empty());
        return (n, n);
    }
    assert(v@.skip(lo as int)[0] == v@[lo as int]);
    let mut hi: usize = n;
    assert(v@.take(n as int) =~= v@);
    while hi > lo + 1 && whitespace(v[hi - 1])
        invariant
            n == v.len(),
            lo < hi <= n,
            !is_whitespace(v@[lo as int]),
            trailing_whitespace(v@) == (n - hi) + trailing_whitespace(v@.take(hi as int)),
        decreases hi,
    {
        assert(v@.take(hi as int).drop_last() =~= v@.take(hi - 1));
        hi -= 1;
    }
    assert(v@.take(hi as int).last() == v@[hi - 1]);
    (lo, hi)
}

/// The end of `before_dot` of the range `lo..hi` of `v`.
fn dot_bound(v: &Vec<char>, lo: usize, hi: usize) -> (end: usize)
    requires
        lo <= hi <= v.len(),
    ensures
        lo <= end <= hi,
        v@.subrange(lo as int, end as int) == before_dot(v@.subrange(lo as int, hi as int)),
{
    let mut end: usize = lo;
    let ghost whole = v@.subrange(lo as int, hi as int);
    assert(whole.skip(0) =~= whole);
    assert(v@.subrange(lo as int, lo as int) =~= Seq::<char>::empty());
    while end < hi && v[end] != '.'
        invariant
            lo <= end <= hi <= v.len(),
            whole == v@.subrange(lo as int, hi as int),
            before_dot(whole) == v@.subrange(lo as int, end as int) + before_dot(
                whole.skip(end - lo),
            ),
        decreases hi - end,
    {
        let ghost tail = whole.skip(end - lo);
        assert(tail[0] == v@[end as int]);
        assert(tail.drop_first() =~= whole.skip(end + 1 - lo));
        assert(v@.subrange(lo as int, end as int) + seq![tail[0]] =~= v@.subrange(
            lo as int,
            end + 1,
        ));
        end += 1;
    }
    proof {
        let tail = whole.skip(end - lo);
        if end < hi {
            assert(tail[0] == v@[end as int]);
        }
        assert(before_dot(tail) =~= Seq::<char>::empty());
        assert(v@.subrange(lo as int, end as int) + Seq::<char>::empty() =~= v@.subrange(
            lo as int,
            end as int,
        ));
    }
    end
}

/// Reads the range `lo..hi` of `v` as an unsigned number.
fn parse_range(v: &Vec<char>, lo: usize, hi: usize) -> (r: Option<usize>)
    requires
        lo <= hi <= v.len(),
    ensures
        r == parse_unsigned(v@.subrange(lo as int, hi as int)),
{
    let ghost s = v@.subrange(lo as int, hi as int);
    let start: usize = if lo < hi && v[lo] == '+' {
        lo + 1
    } else {
        lo
    };
    let ghost body = v@.subrange(start as int, hi as int);
    assert(body =~= if s.len() > 0 && s[0] == '+' {
        s.drop_first()
    } else {
        s
    });
    if start == hi {
        return None;
    }
    let mut acc: usize = 0;
    let mut i: usize = start;
    assert(body.take(0) =~= Seq::<char>::empty());
    while i < hi
        invariant
            start <= i <= hi <= v.len(),
            start < hi,
            body == v@.subrange(start as int, hi as int),
            parse_unsigned(v@.subrange(lo as int, hi as int)) == if all_digits(body)
                && digits_value(body) <= usize::MAX {
                Some(digits_value(body) as usize)
            } else {
                None
            },
            all_digits(body.take(i - start)),
            acc == digits_value(body.take(i - start)),
        decreases hi - i,
    {
        let c = v[i];
        let ghost longer = body.take(i + 1 - start);
        assert(longer.drop_last() =~= body.take(i - start));
        assert(longer.last() == c);
        assert(body[i - start] == c);
        let n = code_point(c);
        if n < 0x30 || n > 0x39 {
            assert(!is_digit(body[i - start]));
            return None;
        }
        let d = (n - 0x30) as usize;
        let next = match acc.checked_mul(10) {
            Some(t) => t.checked_add(d),
            None => None,
        };
        match next {
            Some(t) => {
                acc = t;
            },
            None => {
                proof {
                    assert(digits_value(longer) > usize::MAX);
                    if all_digits(body) {
                        lemma_digits_value_prefix(body, i + 1 - start);
                    }
                }
                return None;
            },
        }
        assert forall|k: int| 0 <= k < longer.len() implies is_digit(#[trigger] longer[k]) by {
            if k < longer.len() - 1 {
                assert(longer[k] == body.take(i - start)[k]);
            }
        }
        i += 1;
    }
    assert(body.take(hi - start) =~= body);
    Some(acc)
}

/// The entries below a directory, from the text of its recursive entry
/// count. The attribute counts the directory itself, which is taken off; a
/// count of nothing stays nothing. No attribute, or one that cannot be read
/// as a number, gives none, not zero.
pub open spec fn entries_below(attr: Option<Seq<char>>) -> Option<usize> {
    match attr {
        Some(t) => match parse_unsigned(trimmed(t)) {
            Some(raw) => Some(
                if raw >= 1 {
                    (raw - 1) as usize
                } else {
                    0usize
                },
            ),
            None => None,
        },
        None => None,
    }
}

/// The view of an optional borrowed text.
pub open spec fn str_of(s: Option<&str>) -> Option<Seq<char>> {
    match s {
        Some(t) => Some(t@),
        None => None,
    }
}

/// The recursive entry count of a directory: the number that its attribute
/// says, less one for the directory itself, which the attribute counts in.
/// No attribute, or one that is no number, gives none.
pub fn get_rentries(attr: Option<&str>) -> (r: Option<usize>)
    ensures
        r == entries_below(str_of(attr)),
{
    match attr {
        Some(t) => {
            let v = chars_of(t);
            let (lo, hi) = trim_bounds(&v);
            match parse_range(&v, lo, hi) {
                Some(raw) => Some(raw.saturating_sub(1)),
                None => None,
            }
        },
        None => None,
    }
}

/// The recursive byte size that a directory's attribute says.
pub fn get_rbytes(attr: Option<&str>) -> (r: Option<usize>)
    ensures
        r == match attr {
            Some(t) => parse_unsigned(trimmed(t@)),
            None => None,
        },
{
    match attr {
        Some(t) => {
            let v = chars_of(t);
            let (lo, hi) = trim_bounds(&v);
            parse_range(&v, lo, hi)
        },
        None => None,
    }
}

/// The recursive change time that a directory's attribute says, in whole
/// seconds: the attribute reads `seconds.nanoseconds`, and what follows the
/// first full stop is not looked at.
pub fn get_rctime(attr: Option<&str>) -> (r: Option<usize>)
    ensures
        r == match attr {
            Some(t) => parse_unsigned(before_dot(trimmed(t@))),
            None => None,
        },
{
    match attr {
        Some(t) => {
            let v = chars_of(t);
            let (lo, hi) = trim_bounds(&v);
            let end = dot_bound(&v, lo, hi);
            parse_range(&v, lo, end)
        },
        None => None,
    }
}

/// The name that the text `raw` from the identity database holds: `raw`
/// without the white space at its ends, or none if nothing is left.
pub fn trimmed_name(raw: &str) -> (name: Option<String>)
    ensures
        match name {
            Some(n) => n@ == trimmed(raw@) && n@.len() > 0,
            None => trimmed(raw@).len() == 0,
        },
{
    let v = chars_of(raw);
    let (lo, hi) = trim_bounds(&v);
    if lo == hi {
        return None;
    }
    let mut name = String::new();
    let mut i: usize = lo;
    assert(name@ =~= v@.subrange(lo as int, lo as int));
    while i < hi
        invariant
            lo <= i <= hi <= v.len(),
            name@ == v@.subrange(lo as int, i as int),
        decreases hi - i,
    {
        name.push(v[i]);
        i += 1;
        assert(name@ =~= v@.subrange(lo as int, i as int));
    }
    Some(name)
}

/// The names found so far for numeric ids. A name once kept stays.
pub struct NameCache {
    names: HashMap<u32, String>,
}

impl NameCache {
    /// The ids known, each with its name.
    pub closed spec fn view(&self) -> Map<u32, Seq<char>> {
        Map::new(|id: u32| self.names@.contains_key(id), |id: u32| self.names@[id]@)
    }

    /// A cache that knows no name yet.
    pub fn new() -> (cache: NameCache)
        ensures
            cache@ == Map::<u32, Seq<char>>::empty(),
    {
        let cache = NameCache { names: HashMap::new() };
        assert(cache@ =~= Map::<u32, Seq<char>>::empty());
        cache
    }

    /// The name kept for `id`, if there is one.
    pub fn get(&self, id: u32) -> (name: Option<String>)
        ensures
            match name {
                Some(n) => self@.contains_key(id) && n@ == self@[id],
                None => !self@.contains_key(id),
            },
    {
        match self.names.get(&id) {
            Some(n) => Some(n.clone()),
            None => None,
        }
    }

    /// Keeps what a lookup of `id` gave, and hands it on. A lookup that found
    /// nothing leaves the cache as it was.
    pub fn record(&mut self, id: u32, found: Option<String>) -> (name: Option<String>)
        ensures
            name == found,
            final(self)@ == match found {
                Some(n) => old(self)@.insert(id, n@),
                None => old(self)@,
            },
    {
        match found {
            Some(n) => {
                self.names.insert(id, n.clone());
                assert(self@ =~= old(self)@.insert(id, n@));
                Some(n)
            },
            None => None,
        }
    }
}

/// The name of the owner `id`: the one the cache keeps, or else the one that
/// `lookup` finds, which the cache then keeps. `lookup` is asked only for an
/// id that the cache does not know, and only about `id`.
pub fn id_to_name<F: FnOnce(u32) -> Option<String>>(
    cache: &mut NameCache,
    id: u32,
    lookup: F,
) -> (name: Option<String>)
    requires
        call_requires(lookup, (id,)),
    ensures
        old(cache)@.contains_key(id) ==> {
            &&& name matches Some(n)
            &&& n@ == old(cache)@[id]
            &&& final(cache)@ == old(cache)@
        },
        !old(cache)@.contains_key(id) ==> {
            &&& call_ensures(lookup, (id,), name)
            &&& final(cache)@ == match name {
                Some(n) => old(cache)@.insert(id, n@),
                None => old(cache)@,
            }
        },
{
    match cache.get(id) {
        Some(n) => Some(n),
        None => {
            let found = lookup(id);
            cache.record(id, found)
        },
    }
}

/// The text shown for the owner `id`: its name where one is known, else the
/// id in decimal.
pub fn name_or_id(name: Option<String>, id: u32) -> (shown: String)
    ensures
        shown@ == match name {
            Some(n) => n@,
            None => decimal_text(id as nat),
        },
{
    match name {
        Some(n) => n,
        None => decimal(id as u128),
    }
}

} // verus!
