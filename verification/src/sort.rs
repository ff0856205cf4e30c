//! The order of a listing: which entry sorts before which for each field, and
//! a stable merge sort that puts entries in that order.

use vstd::prelude::*;

use crate::entry::{views, DirEntry, DirEntryView, SortField, SortMode};
use crate::text::{
    lemma_text_lt_irreflexive, lemma_text_lt_total, lemma_text_lt_transitive, str_lt, text_lt,
};

verus! {

/// Whether the count `a` sorts before `b`: an unknown count sorts before
/// every known one.
pub open spec fn count_lt(a: Option<usize>, b: Option<usize>) -> bool {
    match b {
        None => false,
        Some(y) => match a {
            None => true,
            Some(x) => x < y,
        },
    }
}

/// Whether the text `a` sorts before `b`: an unknown text sorts before every
/// known one.
pub open spec fn opt_text_lt(a: Option<Seq<char>>, b: Option<Seq<char>>) -> bool {
    match b {
        None => false,
        Some(y) => match a {
            None => true,
            Some(x) => text_lt(x, y),
        },
    }
}

/// Whether `a` sorts strictly before `b` when sorting by `field`: by the
/// field itself, then by the fields that break its ties.
pub open spec fn entry_lt(a: DirEntryView, b: DirEntryView, field: SortField) -> bool {
    match field {
        SortField::Name => text_lt(a.name, b.name) || (a.name == b.name && count_lt(
            a.size,
            b.size,
        )),
        SortField::Size => count_lt(a.size, b.size) || (a.size == b.size && count_lt(
            a.rentries,
            b.rentries,
        )),
        SortField::Rentries => count_lt(a.rentries, b.rentries) || (a.rentries == b.rentries
            && count_lt(a.size, b.size)),
        SortField::Owner => opt_text_lt(a.user, b.user) || (a.user == b.user && (opt_text_lt(
            a.group,
            b.group,
        ) || (a.group == b.group && count_lt(a.size, b.size)))),
        SortField::CTime => count_lt(a.ctime, b.ctime),
    }
}

/// Whether `a` and `b` agree in all that sorting by `field` looks at.
pub open spec fn same_key(a: DirEntryView, b: DirEntryView, field: SortField) -> bool {
    match field {
        SortField::Name => a.name == b.name && a.size == b.size,
        SortField::Size => a.size == b.size && a.rentries == b.rentries,
        SortField::Rentries => a.rentries == b.rentries && a.size == b.size,
        SortField::Owner => a.user == b.user && a.group == b.group && a.size == b.size,
        SortField::CTime => a.ctime == b.ctime,
    }
}

/// Whether `s` stands in ascending order for `field`: no entry sorts before
/// one that stands in front of it.
pub open spec fn ascending(s: Seq<DirEntryView>, field: SortField) -> bool {
    forall|i: int, j: int| 0 <= i < j < s.len() ==> !entry_lt(#[trigger] s[j], #[trigger] s[i], field)
}

proof fn lemma_opt_text_lt_total(a: Option<Seq<char>>, b: Option<Seq<char>>)
    ensures
        a == b || opt_text_lt(a, b) || opt_text_lt(b, a),
        !opt_text_lt(a, a),
{
    match (a, b) {
        (Some(x), Some(y)) => {
            lemma_text_lt_total(x, y);
        },
        _ => {},
    }
    if let Some(x) = a {
        lemma_text_lt_irreflexive(x);
    }
}

proof fn lemma_opt_text_lt_transitive(
    a: Option<Seq<char>>,
    b: Option<Seq<char>>,
    c: Option<Seq<char>>,
)
    requires
        opt_text_lt(a, b),
        opt_text_lt(b, c),
    ensures
        opt_text_lt(a, c),
{
    match (a, b, c) {
        (Some(x), Some(y), Some(z)) => {
            lemma_text_lt_transitive(x, y, z);
        },
        _ => {},
    }
}

/// No entry sorts before itself.
pub proof fn lemma_entry_lt_irreflexive(a: DirEntryView, field: SortField)
    ensures
        !entry_lt(a, a, field),
{
    lemma_text_lt_irreflexive(a.name);
    lemma_opt_text_lt_total(a.user, a.user);
    lemma_opt_text_lt_total(a.group, a.group);
}

/// Sorting before is transitive.
pub proof fn lemma_entry_lt_transitive(
    a: DirEntryView,
    b: DirEntryView,
    c: DirEntryView,
    field: SortField,
)
    requires
        entry_lt(a, b, field),
        entry_lt(b, c, field),
    ensures
        entry_lt(a, c, field),
{
    match field {
        SortField::Name => {
            if text_lt(a.name, b.name) && text_lt(b.name, c.name) {
                lemma_text_lt_transitive(a.name, b.name, c.name);
            }
        },
        SortField::Owner => {
            if opt_text_lt(a.user, b.user) && opt_text_lt(b.user, c.user) {
                lemma_opt_text_lt_transitive(a.user, b.user, c.user);
            }
            if opt_text_lt(a.group, b.group) && opt_text_lt(b.group, c.group) {
                lemma_opt_text_lt_transitive(a.group, b.group, c.group);
            }
        },
        _ => {},
    }
}

/// Of two entries, one sorts before the other unless their keys agree; and
/// entries whose keys agree sort alike against any third.
pub proof fn lemma_entry_lt_total(a: DirEntryView, b: DirEntryView, field: SortField)
    ensures
        entry_lt(a, b, field) || entry_lt(b, a, field) || same_key(a, b, field),
        same_key(a, b, field) ==> !entry_lt(a, b, field) && !entry_lt(b, a, field),
{
    lemma_text_lt_total(a.name, b.name);
    lemma_opt_text_lt_total(a.user, b.user);
    lemma_opt_text_lt_total(a.group, b.group);
    lemma_entry_lt_irreflexive(a, field);
}

/// If `a` does not sort before `b`, nor `b` before `c`, then `a` does not
/// sort before `c`.
pub proof fn lemma_entry_lt_negatively_transitive(
    a: DirEntryView,
    b: DirEntryView,
    c: DirEntryView,
    field: SortField,
)
    requires
        !entry_lt(a, b, field),
        !entry_lt(b, c, field),
    ensures
        !entry_lt(a, c, field),
{
    if entry_lt(a, c, field) {
        lemma_entry_lt_total(a, b, field);
        if entry_lt(b, a, field) {
            lemma_entry_lt_transitive(b, a, c, field);
        }
    }
}

/// Whether, once `s` is sorted by `field`, the entry at position `x` of `s`
/// comes before the one at `y`: by sorting before it, or, where neither
/// sorts before the other, by standing in front of it in `s`.
pub open spec fn precedes(s: Seq<DirEntryView>, x: int, y: int, field: SortField) -> bool {
    entry_lt(s[x], s[y], field) || (!entry_lt(s[y], s[x], field) && x < y)
}

/// Coming before is transitive.
pub proof fn lemma_precedes_transitive(
    s: Seq<DirEntryView>,
    x: int,
    y: int,
    z: int,
    field: SortField,
)
    requires
        precedes(s, x, y, field),
        precedes(s, y, z, field),
    ensures
        precedes(s, x, z, field),
{
    let (a, b, c) = (s[x], s[y], s[z]);
    if entry_lt(a, b, field) && entry_lt(b, c, field) {
        lemma_entry_lt_transitive(a, b, c, field);
    } else if entry_lt(a, b, field) {
        if !entry_lt(a, c, field) {
            lemma_entry_lt_negatively_transitive(a, c, b, field);
        }
    } else if entry_lt(b, c, field) {
        if !entry_lt(a, c, field) {
            lemma_entry_lt_negatively_transitive(b, a, c, field);
        }
    } else {
        lemma_entry_lt_negatively_transitive(c, b, a, field);
    }
}

/// Whether `order` lists positions of `before` so that taking the entries
/// in that order gives `after`, with every position listed and each listed
/// one coming before those listed behind it.
pub open spec fn arranges(
    before: Seq<DirEntryView>,
    after: Seq<DirEntryView>,
    order: Seq<int>,
    field: SortField,
) -> bool {
    &&& order.len() == before.len()
    &&& after.len() == before.len()
    &&& forall|i: int|
        0 <= i < order.len() ==> 0 <= #[trigger] order[i] < before.len() && after[i]
            == before[order[i]]
    &&& forall|k: int| 0 <= k < before.len() ==> order.contains(k)
    &&& forall|i: int, j: int|
        0 <= i < j < order.len() ==> precedes(before, #[trigger] order[i], #[trigger] order[j], field)
}

/// Whether `after` is `before` sorted by `field`, entries whose keys agree
/// keeping the order they had.
pub open spec fn is_stable_sort(
    before: Seq<DirEntryView>,
    after: Seq<DirEntryView>,
    field: SortField,
) -> bool {
    exists|order: Seq<int>| arranges(before, after, order, field)
}

/// A stable sort stands in ascending order, and holds the entries it was
/// given, no more and no fewer.
pub proof fn lemma_stable_sort_ascending(
    before: Seq<DirEntryView>,
    after: Seq<DirEntryView>,
    field: SortField,
)
    requires
        is_stable_sort(before, after, field),
    ensures
        ascending(after, field),
        after.len() == before.len(),
        forall|k: int| 0 <= k < before.len() ==> after.contains(#[trigger] before[k]),
        forall|i: int| 0 <= i < after.len() ==> before.contains(#[trigger] after[i]),
{
    let order = choose|order: Seq<int>| arranges(before, after, order, field);
    assert forall|i: int, j: int| 0 <= i < j < after.len() implies !entry_lt(
        #[trigger] after[j],
        #[trigger] after[i],
        field,
    ) by {
        assert(precedes(before, order[i], order[j], field));
        if entry_lt(after[j], after[i], field) {
            lemma_entry_lt_transitive(after[i], after[j], after[i], field);
            lemma_entry_lt_irreflexive(after[i], field);
        }
    }
    assert forall|k: int| 0 <= k < before.len() implies after.contains(#[trigger] before[k]) by {
        assert(order.contains(k));
        let i = choose|i: int| 0 <= i < order.len() && order[i] == k;
        assert(after[i] == before[k]);
    }
    assert forall|i: int| 0 <= i < after.len() implies before.contains(#[trigger] after[i]) by {
        assert(before[order[i]] == after[i]);
    }
}

/// Of two different positions one comes before the other, and no position
/// comes before itself.
pub proof fn lemma_precedes_total(s: Seq<DirEntryView>, x: int, y: int, field: SortField)
    ensures
        x == y || precedes(s, x, y, field) || precedes(s, y, x, field),
        !precedes(s, x, x, field),
        !(precedes(s, x, y, field) && precedes(s, y, x, field)),
{
    lemma_entry_lt_irreflexive(s[x], field);
    if entry_lt(s[x], s[y], field) && entry_lt(s[y], s[x], field) {
        lemma_entry_lt_transitive(s[x], s[y], s[x], field);
    }
}

proof fn lemma_orders_agree(
    before: Seq<DirEntryView>,
    first: Seq<DirEntryView>,
    second: Seq<DirEntryView>,
    p: Seq<int>,
    q: Seq<int>,
    field: SortField,
    i: int,
)
    requires
        arranges(before, first, p, field),
        arranges(before, second, q, field),
        0 <= i < before.len(),
    ensures
        p[i] == q[i],
    decreases i,
{
    assert forall|j: int| 0 <= j < i implies p[j] == q[j] by {
        lemma_orders_agree(before, first, second, p, q, field, j);
    }
    let (x, y) = (p[i], q[i]);
    if x != y {
        lemma_precedes_total(before, x, y, field);
        lemma_precedes_total(before, x, x, field);
        lemma_precedes_total(before, y, y, field);
        if precedes(before, x, y, field) {
            // `x` stands somewhere in `q`: in front of `i` it would stand
            // twice in `p`, behind `i` it would come after `y`.
            assert(q.contains(x));
            let j = choose|j: int| 0 <= j < q.len() && q[j] == x;
            if j < i {
                assert(precedes(before, p[j], p[i], field));
            } else {
                assert(precedes(before, q[i], q[j], field));
                lemma_precedes_transitive(before, x, y, x, field);
            }
        } else {
            assert(p.contains(y));
            let j = choose|j: int| 0 <= j < p.len() && p[j] == y;
            if j < i {
                assert(precedes(before, q[j], q[i], field));
            } else {
                assert(precedes(before, p[i], p[j], field));
                lemma_precedes_transitive(before, y, x, y, field);
            }
        }
    }
}

/// There is one stable sort of a listing and no other: whatever is a stable
/// sort of `before` by `field` is the same sequence.
pub proof fn lemma_stable_sort_unique(
    before: Seq<DirEntryView>,
    first: Seq<DirEntryView>,
    second: Seq<DirEntryView>,
    field: SortField,
)
    requires
        is_stable_sort(before, first, field),
        is_stable_sort(before, second, field),
    ensures
        first == second,
{
    let p = choose|order: Seq<int>| arranges(before, first, order, field);
    let q = choose|order: Seq<int>| arranges(before, second, order, field);
    assert forall|i: int| 0 <= i < first.len() implies first[i] == second[i] by {
        lemma_orders_agree(before, first, second, p, q, field, i);
    }
    assert(first =~= second);
}

fn count_before(a: Option<usize>, b: Option<usize>) -> (r: bool)
    ensures
        r == count_lt(a, b),
{
    match b {
        None => false,
        Some(y) => match a {
            None => true,
            Some(x) => x < y,
        },
    }
}

fn text_before(a: &Option<String>, b: &Option<String>) -> (r: bool)
    ensures
        r == opt_text_lt(crate::entry::text_of(*a), crate::entry::text_of(*b)),
{
    match b {
        None => false,
        Some(y) => match a {
            None => true,
            Some(x) => str_lt(x.as_str(), y.as_str()),
        },
    }
}

fn same_count(a: Option<usize>, b: Option<usize>) -> (r: bool)
    ensures
        r == (a == b),
{
    match (a, b) {
        (None, None) => true,
        (Some(x), Some(y)) => x == y,
        _ => false,
    }
}

fn same_text(a: &Option<String>, b: &Option<String>) -> (r: bool)
    ensures
        r == (crate::entry::text_of(*a) == crate::entry::text_of(*b)),
{
    match (a, b) {
        (None, None) => true,
        (Some(x), Some(y)) => *x == *y,
        _ => false,
    }
}

/// Whether `a` sorts strictly before `b` when sorting by `field`.
pub fn entry_before(a: &DirEntry, b: &DirEntry, field: SortField) -> (r: bool)
    ensures
        r == entry_lt(a@, b@, field),
{
    match field {
        SortField::Name => str_lt(a.name.as_str(), b.name.as_str()) || (a.name == b.name
            && count_before(a.size, b.size)),
        SortField::Size => count_before(a.size, b.size) || (same_count(a.size, b.size)
            && count_before(a.rentries, b.rentries)),
        SortField::Rentries => count_before(a.rentries, b.rentries) || (same_count(
            a.rentries,
            b.rentries,
        ) && count_before(a.size, b.size)),
        SortField::Owner => text_before(&a.user, &b.user) || (same_text(&a.user, &b.user) && (
        text_before(&a.group, &b.group) || (same_text(&a.group, &b.group) && count_before(
            a.size,
            b.size,
        )))),
        SortField::CTime => count_before(a.ctime, b.ctime),
    }
}

/// Whether each position listed in `run` comes before those listed behind it.
spec fn run_ordered(s: Seq<DirEntryView>, run: Seq<usize>, field: SortField) -> bool {
    forall|i: int, j: int|
        0 <= i < j < run.len() ==> precedes(s, #[trigger] run[i] as int, #[trigger] run[j] as int, field)
}

/// Whether every position listed in `run` lies in `lo..hi`.
spec fn run_within(run: Seq<usize>, lo: int, hi: int) -> bool {
    forall|i: int| 0 <= i < run.len() ==> lo <= #[trigger] run[i] < hi
}

/// Merges two ordered runs of positions, of which the first lists positions
/// in front of all that the second lists.
fn merge_runs(
    entries: &Vec<DirEntry>,
    field: SortField,
    left: &Vec<usize>,
    right: &Vec<usize>,
    Ghost(lo): Ghost<int>,
    Ghost(mid): Ghost<int>,
    Ghost(hi): Ghost<int>,
) -> (out: Vec<usize>)
    requires
        0 <= lo <= mid <= hi <= entries.len(),
        left.len() + right.len() <= entries.len(),
        run_within(left@, lo, mid),
        run_within(right@, mid, hi),
        run_ordered(views(entries@), left@, field),
        run_ordered(views(entries@), right@, field),
    ensures
        out.len() == left.len() + right.len(),
        run_within(out@, lo, hi),
        run_ordered(views(entries@), out@, field),
        forall|k: int| 0 <= k < left.len() ==> out@.contains(#[trigger] left@[k]),
        forall|k: int| 0 <= k < right.len() ==> out@.contains(#[trigger] right@[k]),
{
    let ghost s = views(entries@);
    let mut out: Vec<usize> = Vec::new();
    let mut i: usize = 0;
    let mut j: usize = 0;
    while i < left.len() || j < right.len()
        invariant
            s == views(entries@),
            0 <= lo <= mid <= hi <= entries.len(),
            left.len() + right.len() <= entries.len(),
            run_within(left@, lo, mid),
            run_within(right@, mid, hi),
            run_ordered(s, left@, field),
            run_ordered(s, right@, field),
            i <= left.len(),
            j <= right.len(),
            out.len() == i + j,
            run_within(out@, lo, hi),
            run_ordered(s, out@, field),
            forall|m: int, k: int|
                0 <= m < out.len() && i <= k < left.len() ==> precedes(
                    s,
                    #[trigger] out@[m] as int,
                    #[trigger] left@[k] as int,
                    field,
                ),
            forall|m: int, k: int|
                0 <= m < out.len() && j <= k < right.len() ==> precedes(
                    s,
                    #[trigger] out@[m] as int,
                    #[trigger] right@[k] as int,
                    field,
                ),
            forall|k: int| 0 <= k < i ==> out@.contains(#[trigger] left@[k]),
            forall|k: int| 0 <= k < j ==> out@.contains(#[trigger] right@[k]),
        decreases left.len() - i + right.len() - j,
    {
        let ghost before = out@;
        let from_left = if i < left.len() && j < right.len() {
            !entry_before(&entries[right[j]], &entries[left[i]], field)
        } else {
            i < left.len()
        };
        let x: usize;
        if from_left {
            x = left[i];
            proof {
                assert forall|k: int| j <= k < right.len() implies precedes(
                    s,
                    x as int,
                    #[trigger] right@[k] as int,
                    field,
                ) by {
                    assert(x < mid <= right@[j as int]);
                    assert(precedes(s, x as int, right@[j as int] as int, field));
                    if k > j {
                        lemma_precedes_transitive(
                            s,
                            x as int,
                            right@[j as int] as int,
                            right@[k] as int,
                            field,
                        );
                    }
                }
            }
            i += 1;
        } else {
            x = right[j];
            proof {
                assert forall|k: int| i <= k < left.len() implies precedes(
                    s,
                    x as int,
                    #[trigger] left@[k] as int,
                    field,
                ) by {
                    assert(precedes(s, x as int, left@[i as int] as int, field));
                    if k > i {
                        lemma_precedes_transitive(
                            s,
                            x as int,
                            left@[i as int] as int,
                            left@[k] as int,
                            field,
                        );
                    }
                }
            }
            j += 1;
        }
        out.push(x);
        proof {
            let n = before.len() as int;
            assert(out@[n] == x);
            assert forall|m: int| 0 <= m < n implies out@[m] == before[m] by {}
            assert forall|k: int| 0 <= k < i implies out@.contains(#[trigger] left@[k]) by {
                if from_left && k == i - 1 {
                    assert(out@[n] == left@[k]);
                } else {
                    let m = choose|m: int| 0 <= m < before.len() && before[m] == left@[k];
                    assert(out@[m] == left@[k]);
                }
            }
            assert forall|k: int| 0 <= k < j implies out@.contains(#[trigger] right@[k]) by {
                if !from_left && k == j - 1 {
                    assert(out@[n] == right@[k]);
                } else {
                    let m = choose|m: int| 0 <= m < before.len() && before[m] == right@[k];
                    assert(out@[m] == right@[k]);
                }
            }
        }
    }
    out
}

/// The positions `lo..hi` of `entries`, in the order in which sorting by
/// `field` puts them.
fn sort_range(entries: &Vec<DirEntry>, field: SortField, lo: usize, hi: usize) -> (run: Vec<usize>)
    requires
        lo <= hi <= entries.len(),
    ensures
        run.len() == hi - lo,
        run_within(run@, lo as int, hi as int),
        run_ordered(views(entries@), run@, field),
        forall|k: usize| lo <= k < hi ==> run@.contains(k),
    decreases hi - lo,
{
    if hi - lo == 0 {
        Vec::new()
    } else if hi - lo == 1 {
        let mut run: Vec<usize> = Vec::new();
        run.push(lo);
        assert(run@[0] == lo);
        run
    } else {
        let mid = lo + (hi - lo) / 2;
        let left = sort_range(entries, field, lo, mid);
        let right = sort_range(entries, field, mid, hi);
        let run = merge_runs(
            entries,
            field,
            &left,
            &right,
            Ghost(lo as int),
            Ghost(mid as int),
            Ghost(hi as int),
        );
        proof {
            assert forall|k: usize| lo <= k < hi implies run@.contains(k) by {
                if k < mid {
                    assert(left@.contains(k));
                    let m = choose|m: int| 0 <= m < left.len() && left@[m] == k;
                    assert(run@.contains(left@[m]));
                } else {
                    assert(right@.contains(k));
                    let m = choose|m: int| 0 <= m < right.len() && right@[m] == k;
                    assert(run@.contains(right@[m]));
                }
            }
        }
        run
    }
}

/// Sorts `entries` by the field of `sort_mode`, ascending. Entries that the
/// field and its tie-breaks do not tell apart keep the order they had.
pub fn sort(entries: &mut Vec<DirEntry>, sort_mode: SortMode)
    ensures
        is_stable_sort(views(old(entries)@), views(final(entries)@), sort_mode.spec_field()),
        ascending(views(final(entries)@), sort_mode.spec_field()),
        final(entries).len() == old(entries).len(),
{
    let field = *sort_mode.field();
    let n = entries.len();
    let run = sort_range(entries, field, 0, n);
    let ghost before = views(entries@);
    let ghost order = run@.map_values(|x: usize| x as int);
    let mut sorted: Vec<DirEntry> = Vec::new();
    let mut i: usize = 0;
    while i < n
        invariant
            n == entries.len(),
            n == run.len(),
            i <= n,
            before == views(entries@),
            run_within(run@, 0, n as int),
            sorted.len() == i,
            forall|k: int| 0 <= k < i ==> (#[trigger] sorted@[k])@ == before[run@[k] as int],
        decreases n - i,
    {
        sorted.push(entries[run[i]].duplicate());
        i += 1;
    }
    *entries = sorted;
    proof {
        let after = views(entries@);
        assert forall|k: int| 0 <= k < before.len() implies order.contains(k) by {
            assert(run@.contains(k as usize));
            let m = choose|m: int| 0 <= m < run.len() && run@[m] == k as usize;
            assert(order[m] == k);
        }
        assert forall|a: int, b: int| 0 <= a < b < order.len() implies precedes(
            before,
            #[trigger] order[a],
            #[trigger] order[b],
            field,
        ) by {
            assert(precedes(before, run@[a] as int, run@[b] as int, field));
        }
        assert(arranges(before, after, order, field));
        lemma_stable_sort_ascending(before, after, field);
    }
}

} // verus!
