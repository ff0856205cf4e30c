//! The listing of one directory: its entries in sorted storage, the order in
//! which they are displayed, and the cursor that moves over that order.

use vstd::prelude::*;

use crate::entry::{views, DirEntry, DirEntryView, EntryKind, SortField, SortMode};
use crate::probe::FSType;
use crate::sort::{ascending, entry_lt, is_stable_sort, lemma_stable_sort_ascending, sort};
use crate::text::str_eq;

verus! {

/// The size and entry-count figures that the gauges of a listing are
/// measured against.
#[derive(Debug, Clone, Copy)]
pub struct ListingStats {
    pub max_rentries: usize,
    pub total_rentries: usize,
    pub max_size: usize,
    pub total_size: usize,
}

/// An encapsulation of a list of all files and directories in a directory.
pub struct DirListing {
    dotdot: Option<DirEntry>,
    entries: Vec<DirEntry>,
    selected: Option<usize>,
    sort_mode: SortMode,
    pub stats: ListingStats,
    pub fs: Option<FSType>,
}

/// A `DirListing` with its entries as a sequence of views.
pub struct ListingView {
    /// The entry for the parent directory; the root has none.
    pub dotdot: Option<DirEntryView>,
    /// The entries as stored: ascending for the field of `sort_mode`.
    pub entries: Seq<DirEntryView>,
    /// The display index that the cursor is on.
    pub selected: Option<usize>,
    pub sort_mode: SortMode,
    pub stats: ListingStats,
    pub fs: Option<FSType>,
}

/// A count, an unknown one taken as zero.
pub open spec fn known(count: Option<usize>) -> usize {
    match count {
        Some(c) => c,
        None => 0,
    }
}

/// The largest known size among `s`; zero if there is none.
pub open spec fn max_size(s: Seq<DirEntryView>) -> usize
    decreases s.len(),
{
    if s.len() == 0 {
        0
    } else if known(s.last().size) > max_size(s.drop_last()) {
        known(s.last().size)
    } else {
        max_size(s.drop_last())
    }
}

/// The largest known recursive entry count among `s`; zero if there is none.
pub open spec fn max_rentries(s: Seq<DirEntryView>) -> usize
    decreases s.len(),
{
    if s.len() == 0 {
        0
    } else if known(s.last().rentries) > max_rentries(s.drop_last()) {
        known(s.last().rentries)
    } else {
        max_rentries(s.drop_last())
    }
}

/// Whether a filesystem of kind `fs` keeps recursive totals. An unknown kind
/// does not.
pub open spec fn accounts_recursively(fs: Option<FSType>) -> bool {
    match fs {
        Some(t) => FSType::accounts_recursively(t.magic()),
        None => false,
    }
}

/// `e` as a listing on a filesystem of kind `fs` holds it: where the
/// filesystem keeps no recursive totals, the size of a directory is not
/// known. Everything else stays.
pub open spec fn trusted_entry(e: DirEntryView, fs: Option<FSType>) -> DirEntryView {
    if !accounts_recursively(fs) && e.kind == EntryKind::Dir {
        DirEntryView { size: None, ..e }
    } else {
        e
    }
}

/// Whether `s` holds no size that a filesystem of kind `fs` does not vouch
/// for: where the filesystem keeps no recursive totals, no directory has a
/// known size.
pub open spec fn sizes_trusted(s: Seq<DirEntryView>, fs: Option<FSType>) -> bool {
    accounts_recursively(fs) || forall|i: int|
        0 <= i < s.len() ==> (#[trigger] s[i]).kind == EntryKind::Dir ==> s[i].size is None
}

/// The largest size among `s` is no less than any size among `s`, and is one
/// of them unless `s` is empty. The same holds of the largest entry count.
pub proof fn lemma_maxima(s: Seq<DirEntryView>)
    ensures
        forall|i: int| 0 <= i < s.len() ==> known((#[trigger] s[i]).size) <= max_size(s),
        forall|i: int| 0 <= i < s.len() ==> known((#[trigger] s[i]).rentries) <= max_rentries(s),
        s.len() > 0 ==> exists|i: int| 0 <= i < s.len() && known((#[trigger] s[i]).size) == max_size(s),
        s.len() > 0 ==> exists|i: int|
            0 <= i < s.len() && known((#[trigger] s[i]).rentries) == max_rentries(s),
        s.len() == 0 ==> max_size(s) == 0 && max_rentries(s) == 0,
    decreases s.len(),
{
    if s.len() > 0 {
        let front = s.drop_last();
        let end = s.len() - 1;
        lemma_maxima(front);
        assert forall|i: int| 0 <= i < s.len() implies known((#[trigger] s[i]).size) <= max_size(
            s,
        ) && known(s[i].rentries) <= max_rentries(s) by {
            if i < end {
                assert(front[i] == s[i]);
            }
        }
        if front.len() > 0 {
            let a = choose|i: int| 0 <= i < front.len() && known((#[trigger] front[i]).size)
                == max_size(front);
            let b = choose|i: int| 0 <= i < front.len() && known((#[trigger] front[i]).rentries)
                == max_rentries(front);
            assert(s[a] == front[a] && s[b] == front[b]);
        }
        assert(known(s[end].size) == max_size(s) || front.len() > 0);
        assert(known(s[end].rentries) == max_rentries(s) || front.len() > 0);
    }
}

/// Sequences that hold the same entries have the same maxima.
proof fn lemma_same_entries_same_maxima(a: Seq<DirEntryView>, b: Seq<DirEntryView>)
    requires
        a.len() == b.len(),
        forall|i: int| 0 <= i < a.len() ==> b.contains(#[trigger] a[i]),
        forall|i: int| 0 <= i < b.len() ==> a.contains(#[trigger] b[i]),
    ensures
        max_size(a) == max_size(b),
        max_rentries(a) == max_rentries(b),
{
    lemma_maxima(a);
    lemma_maxima(b);
    if a.len() > 0 {
        let i = choose|i: int| 0 <= i < a.len() && known((#[trigger] a[i]).size) == max_size(a);
        assert(b.contains(a[i]));
        let j = choose|j: int| 0 <= j < b.len() && known((#[trigger] b[j]).size) == max_size(b);
        assert(a.contains(b[j]));
        let k = choose|k: int| 0 <= k < a.len() && known((#[trigger] a[k]).rentries)
            == max_rentries(a);
        assert(b.contains(a[k]));
        let l = choose|l: int| 0 <= l < b.len() && known((#[trigger] b[l]).rentries)
            == max_rentries(b);
        assert(a.contains(b[l]));
    }
}

/// Sorting brings in no size that the filesystem does not vouch for.
proof fn lemma_sort_keeps_trust(
    before: Seq<DirEntryView>,
    after: Seq<DirEntryView>,
    field: SortField,
    fs: Option<FSType>,
)
    requires
        is_stable_sort(before, after, field),
        sizes_trusted(before, fs),
    ensures
        sizes_trusted(after, fs),
{
    lemma_stable_sort_ascending(before, after, field);
    if !accounts_recursively(fs) {
        assert forall|i: int| 0 <= i < after.len() && (#[trigger] after[i]).kind
            == EntryKind::Dir implies after[i].size is None by {
            assert(before.contains(after[i]));
            let k = choose|k: int| 0 <= k < before.len() && before[k] == after[i];
            assert(before[k].kind == EntryKind::Dir);
        }
    }
}

/// Each entry of `s` as a listing on a filesystem of kind `fs` holds it.
pub open spec fn trusted_entries(s: Seq<DirEntryView>, fs: Option<FSType>) -> Seq<DirEntryView> {
    s.map_values(|e: DirEntryView| trusted_entry(e, fs))
}

/// The first position of `s` whose entry is named `name`, if there is one.
pub open spec fn first_named(s: Seq<DirEntryView>, name: Seq<char>) -> Option<usize>
    decreases s.len(),
{
    if s.len() == 0 {
        None
    } else {
        match first_named(s.drop_last(), name) {
            Some(i) => Some(i),
            None => if s.last().name == name {
                Some((s.len() - 1) as usize)
            } else {
                None
            },
        }
    }
}

/// Whether `found` is the first position of `s` whose entry is named
/// `name`, or nothing where no entry is.
pub open spec fn is_first_named(s: Seq<DirEntryView>, name: Seq<char>, found: Option<usize>) -> bool {
    match found {
        Some(i) => {
            &&& i < s.len()
            &&& s[i as int].name == name
            &&& forall|k: int| 0 <= k < i ==> (#[trigger] s[k]).name != name
        },
        None => forall|k: int| 0 <= k < s.len() ==> (#[trigger] s[k]).name != name,
    }
}

/// `first_named` gives the position of an entry of that name in front of
/// which no entry has the name, or nothing where no entry has it; and
/// whatever is such a position is what it gives.
pub proof fn lemma_first_named(s: Seq<DirEntryView>, name: Seq<char>)
    requires
        s.len() <= usize::MAX,
    ensures
        is_first_named(s, name, first_named(s, name)),
        forall|found: Option<usize>| #[trigger]
            is_first_named(s, name, found) ==> found == first_named(s, name),
    decreases s.len(),
{
    if s.len() > 0 {
        let front = s.drop_last();
        lemma_first_named(front, name);
        assert forall|k: int| 0 <= k < front.len() implies front[k] == s[k] by {}
        assert(is_first_named(s, name, first_named(s, name))) by {
            match first_named(front, name) {
                Some(i) => {
                    assert(front[i as int] == s[i as int]);
                },
                None => {},
            }
        }
        assert forall|found: Option<usize>| #[trigger]
            is_first_named(s, name, found) implies found == first_named(s, name) by {
            let known = first_named(s, name);
            match (found, known) {
                (Some(i), Some(j)) => {
                    if i < j {
                        assert(s[i as int].name == name);
                    } else if j < i {
                        assert(s[j as int].name == name);
                    }
                },
                (Some(i), None) => {
                    assert(s[i as int].name == name);
                },
                (None, Some(j)) => {
                    assert(s[j as int].name == name);
                },
                (None, None) => {},
            }
        }
    } else {
        assert forall|found: Option<usize>| #[trigger]
            is_first_named(s, name, found) implies found == first_named(s, name) by {}
    }
}

impl ListingView {
    /// How many display positions the parent entry takes: one or none.
    pub open spec fn offset(self) -> int {
        if self.dotdot is Some {
            1
        } else {
            0
        }
    }

    /// How many entries are displayed.
    pub open spec fn len(self) -> int {
        self.entries.len() + self.offset()
    }

    /// The storage slot shown at display index `display`; the parent entry
    /// has none.
    pub open spec fn storage_slot(self, display: int) -> Option<int> {
        if display < self.offset() {
            None
        } else if self.sort_mode.spec_is_reversed() {
            Some(self.entries.len() - (display - self.offset()) - 1)
        } else {
            Some(display - self.offset())
        }
    }

    /// The display index at which storage slot `slot` is shown.
    pub open spec fn display_index(self, slot: int) -> int {
        if self.sort_mode.spec_is_reversed() {
            self.offset() + (self.entries.len() - slot - 1)
        } else {
            self.offset() + slot
        }
    }

    /// The entries in the order in which they are displayed: the parent
    /// entry first if there is one, then the stored entries, back to front
    /// if the mode is reversed.
    pub open spec fn displayed(self) -> Seq<DirEntryView> {
        let shown = if self.sort_mode.spec_is_reversed() {
            self.entries.reverse()
        } else {
            self.entries
        };
        match self.dotdot {
            Some(parent) => seq![parent] + shown,
            None => shown,
        }
    }

    /// The index that the cursor is on once it has moved `by` down.
    pub open spec fn next_index(self, by: usize) -> usize {
        match self.selected {
            Some(idx) => {
                let last = if self.len() > 0 {
                    self.len() - 1
                } else {
                    0
                };
                if idx + by < last {
                    (idx + by) as usize
                } else {
                    last as usize
                }
            },
            None => 0,
        }
    }

    /// The index that the cursor is on once it has moved `by` up.
    pub open spec fn prev_index(self, by: usize) -> usize {
        match self.selected {
            Some(idx) => if idx >= by {
                (idx - by) as usize
            } else {
                0
            },
            None => if self.len() > 0 {
                (self.len() - 1) as usize
            } else {
                0
            },
        }
    }

    /// `idx`, or the last index if `idx` lies behind it.
    pub open spec fn clamped(self, idx: usize) -> usize {
        if idx < self.len() {
            idx
        } else if self.len() > 0 {
            (self.len() - 1) as usize
        } else {
            0
        }
    }

    /// Whether this is the listing of a directory on a filesystem of kind
    /// `fs` with the children `children`, sorted by `mode`, the cursor on
    /// the first displayed entry.
    ///
    /// The children are held as `trusted_entries` has them, in a stable sort
    /// by the field of `mode`. Every directory but the root has a
    /// parent entry. The maxima are those of the children; the totals are
    /// what the entry `cwd` of the directory itself says, and the total size
    /// is zero where the filesystem keeps no recursive totals.
    pub open spec fn lists(
        self,
        is_root: bool,
        fs: Option<FSType>,
        cwd: DirEntryView,
        children: Seq<DirEntryView>,
        mode: SortMode,
    ) -> bool {
        &&& is_stable_sort(trusted_entries(children, fs), self.entries, mode.spec_field())
        &&& self.dotdot == if is_root {
            None
        } else {
            Some(DirEntry::dotdot_view())
        }
        &&& self.selected == Some(0usize)
        &&& self.sort_mode == mode
        &&& self.fs == fs
        &&& self.stats.max_size == max_size(self.entries)
        &&& self.stats.max_rentries == max_rentries(self.entries)
        &&& self.stats.total_rentries == known(cwd.rentries)
        &&& self.stats.total_size == if accounts_recursively(fs) {
            known(cwd.size)
        } else {
            0
        }
    }

    /// This listing displayed the other way round.
    pub open spec fn turned_round(self) -> ListingView {
        ListingView { sort_mode: self.sort_mode.spec_as_reversed(), ..self }
    }

    /// This listing with the cursor put back on the entry named `name`, or,
    /// where no entry has that name, at the index `index`, or on the last
    /// entry if the listing is shorter than that.
    pub open spec fn with_cursor_back(self, name: Seq<char>, index: usize) -> ListingView {
        self.with_selected(
            Some(
                match first_named(self.displayed(), name) {
                    Some(i) => i,
                    None => self.clamped(index),
                },
            ),
        )
    }

    /// This listing with the cursor on `selected`.
    pub open spec fn with_selected(self, selected: Option<usize>) -> ListingView {
        ListingView { selected, ..self }
    }

    /// Whether `after` is this listing sorted by `mode`. A mode with the
    /// field that the listing is sorted by changes the direction alone and
    /// leaves the storage as it is; any other field sorts the storage anew.
    /// The cursor keeps its index.
    pub open spec fn sorted_to(self, after: ListingView, mode: SortMode) -> bool {
        &&& after == ListingView { sort_mode: mode, entries: after.entries, ..self }
        &&& if mode.spec_field() == self.sort_mode.spec_field() {
            after.entries == self.entries
        } else {
            is_stable_sort(self.entries, after.entries, mode.spec_field())
        }
    }
}

impl View for DirListing {
    type V = ListingView;

    closed spec fn view(&self) -> ListingView {
        ListingView {
            dotdot: match self.dotdot {
                Some(parent) => Some(parent@),
                None => None,
            },
            entries: views(self.entries@),
            selected: self.selected,
            sort_mode: self.sort_mode,
            stats: self.stats,
            fs: self.fs,
        }
    }
}

/// For every valid display index, going to the storage slot and back gives
/// the index again; the one display index without a slot is that of the
/// parent entry. This holds in both directions of display, with and without
/// a parent entry.
pub proof fn lemma_display_storage_round_trip(listing: ListingView, display: int)
    requires
        0 <= display < listing.len(),
    ensures
        match listing.storage_slot(display) {
            Some(slot) => {
                &&& 0 <= slot < listing.entries.len()
                &&& listing.display_index(slot) == display
                &&& listing.displayed()[display] == listing.entries[slot]
            },
            None => {
                &&& display == 0
                &&& listing.dotdot is Some
                &&& listing.displayed()[display] == listing.dotdot->0
            },
        },
{
}

/// For every storage slot, going to the display index and back gives the
/// slot again.
pub proof fn lemma_storage_display_round_trip(listing: ListingView, slot: int)
    requires
        0 <= slot < listing.entries.len(),
    ensures
        0 <= listing.display_index(slot) < listing.len(),
        listing.storage_slot(listing.display_index(slot)) == Some(slot),
{
}

/// Turning the display of a listing round twice shows it as it was
/// before: the direction flips and flips back, and the storage is not
/// sorted anew either time.
pub proof fn lemma_reverse_twice(before: ListingView, once: ListingView, twice: ListingView)
    requires
        before.sorted_to(once, before.sort_mode.spec_as_reversed()),
        once.sorted_to(twice, once.sort_mode.spec_as_reversed()),
    ensures
        once.entries == before.entries,
        twice == before,
        twice.displayed() == before.displayed(),
{
}

/// On a filesystem that keeps no recursive totals a listing holds its
/// children with the sizes of the directories unknown, and with nothing else
/// changed: a file keeps its size, and every entry keeps its entry count.
pub proof fn lemma_listing_trusts_no_directory_size(
    listing: ListingView,
    is_root: bool,
    fs: Option<FSType>,
    cwd: DirEntryView,
    children: Seq<DirEntryView>,
    mode: SortMode,
    i: int,
)
    requires
        listing.lists(is_root, fs, cwd, children, mode),
        !accounts_recursively(fs),
        0 <= i < listing.entries.len(),
    ensures
        listing.entries.len() == children.len(),
        exists|k: int|
            0 <= k < children.len() && listing.entries[i] == trusted_entry(#[trigger] children[k], fs),
        listing.entries[i].kind == EntryKind::Dir ==> listing.entries[i].size is None,
        listing.stats.total_size == 0,
{
    let held = trusted_entries(children, fs);
    let order = choose|order: Seq<int>|
        crate::sort::arranges(held, listing.entries, order, mode.spec_field());
    let k = order[i];
    assert(listing.entries[i] == held[k]);
    assert(held[k] == trusted_entry(children[k], fs));
}

/// Turning the direction of display round shows the stored entries back to
/// front, the parent entry staying first.
pub proof fn lemma_reversed_display_mirrors(listing: ListingView, display: int)
    requires
        listing.offset() <= display < listing.len(),
    ensures
        listing.turned_round().displayed()[display] == listing.displayed()[listing.len() - 1 - (
        display - listing.offset())],
{
}

impl DirListing {
    /// Whether the storage stands in ascending order for the field of the
    /// sort mode, the parent entry, if there is one, is the directory named
    /// `..` of which nothing else is known, no directory has a size that the
    /// filesystem does not vouch for, the maxima are those of the entries,
    /// and the storage is short enough for the parent entry to be counted in.
    pub closed spec fn wf(&self) -> bool {
        &&& ascending(views(self.entries@), self.sort_mode.spec_field())
        &&& self.dotdot matches Some(parent) ==> parent@ == DirEntry::dotdot_view()
        &&& sizes_trusted(views(self.entries@), self.fs)
        &&& self.stats.max_size == max_size(views(self.entries@))
        &&& self.stats.max_rentries == max_rentries(views(self.entries@))
        &&& self.entries.len() < usize::MAX
    }

    /// A well-formed listing stands in ascending order, holds only sizes
    /// that its filesystem vouches for, and knows the largest size and the
    /// largest entry count among its entries. Its parent entry, where it
    /// has one, is the directory named `..` of which nothing else is known.
    pub proof fn lemma_wf(&self)
        requires
            self.wf(),
        ensures
            ascending(self@.entries, self@.sort_mode.spec_field()),
            self@.dotdot matches Some(parent) ==> parent == DirEntry::dotdot_view(),
            self@.offset() == 1 ==> self@.displayed()[0] == DirEntry::dotdot_view(),
            sizes_trusted(self@.entries, self@.fs),
            self@.stats.max_size == max_size(self@.entries),
            self@.stats.max_rentries == max_rentries(self@.entries),
    {
    }

    /// The stored entries are displayed in their order, smallest first, or
    /// back to front, largest first, as the mode says: of two displayed
    /// children the one displayed first does not sort behind the other in a
    /// listing that is not reversed, and not in front of it in one that is.
    pub proof fn lemma_display_order(&self, i: int, j: int)
        requires
            self.wf(),
            self@.offset() <= i < j < self@.len(),
        ensures
            !self@.sort_mode.spec_is_reversed() ==> !entry_lt(
                self@.displayed()[j],
                self@.displayed()[i],
                self@.sort_mode.spec_field(),
            ),
            self@.sort_mode.spec_is_reversed() ==> !entry_lt(
                self@.displayed()[i],
                self@.displayed()[j],
                self@.sort_mode.spec_field(),
            ),
    {
        lemma_display_storage_round_trip(self@, i);
        lemma_display_storage_round_trip(self@, j);
    }

    /// The listing of a directory with the children `entries`, sorted by
    /// `sort_mode`, the cursor on the first displayed entry.
    ///
    /// `is_root` says that the directory is the root, which has no parent
    /// entry; `fs` is the kind of its filesystem; `entry_cwd` is the entry of
    /// the directory itself, from which the totals come. The maxima are those
    /// of the children. Where the filesystem keeps no recursive totals,
    /// the size of a child directory is unknown and so is the total size.
    pub fn from(
        is_root: bool,
        fs: Option<FSType>,
        entry_cwd: &DirEntry,
        entries: Vec<DirEntry>,
        sort_mode: SortMode,
    ) -> (listing: DirListing)
        requires
            entries.len() < usize::MAX,
        ensures
            listing.wf(),
            listing@.lists(is_root, fs, entry_cwd@, views(entries@), sort_mode),
    {
        let ceph = match fs {
            Some(t) => t.is_ceph(),
            None => false,
        };
        let ghost given = views(entries@);
        let mut kept: Vec<DirEntry> = Vec::new();
        let n = entries.len();
        let mut i: usize = 0;
        while i < n
            invariant
                n == entries.len(),
                i <= n,
                given == views(entries@),
                ceph == accounts_recursively(fs),
                kept.len() == i,
                forall|k: int| 0 <= k < i ==> (#[trigger] kept@[k])@ == trusted_entry(given[k], fs),
            decreases n - i,
        {
            let mut e = entries[i].duplicate();
            if !ceph && e.kind == EntryKind::Dir {
                e.size = None;
            }
            kept.push(e);
            i += 1;
        }
        assert(views(kept@) =~= trusted_entries(given, fs));
        let ghost held = views(kept@);
        sort(&mut kept, sort_mode);
        proof {
            lemma_sort_keeps_trust(held, views(kept@), sort_mode.spec_field(), fs);
        }

        let dotdot = if is_root {
            None
        } else {
            Some(DirEntry::dotdot())
        };

        let mut max_r: usize = 0;
        let mut max_s: usize = 0;
        let mut j: usize = 0;
        assert(views(kept@).take(0) =~= Seq::<DirEntryView>::empty());
        while j < n
            invariant
                n == kept.len(),
                j <= n,
                max_s == max_size(views(kept@).take(j as int)),
                max_r == max_rentries(views(kept@).take(j as int)),
            decreases n - j,
        {
            let ghost upto = views(kept@).take(j + 1);
            assert(upto.drop_last() =~= views(kept@).take(j as int));
            assert(upto.last() == kept@[j as int]@);
            let r = match kept[j].rentries {
                Some(c) => c,
                None => 0,
            };
            let s = match kept[j].size {
                Some(c) => c,
                None => 0,
            };
            if r > max_r {
                max_r = r;
            }
            if s > max_s {
                max_s = s;
            }
            j += 1;
        }
        assert(views(kept@).take(n as int) =~= views(kept@));
        let total_rentries = match entry_cwd.rentries {
            Some(c) => c,
            None => 0,
        };
        let total_size = if ceph {
            match entry_cwd.size {
                Some(c) => c,
                None => 0,
            }
        } else {
            0
        };
        DirListing {
            dotdot,
            entries: kept,
            selected: Some(0),
            sort_mode,
            stats: ListingStats {
                max_rentries: max_r,
                total_rentries,
                max_size: max_s,
                total_size,
            },
            fs,
        }
    }

    /// The listing that stands before any directory has been read: empty,
    /// with no cursor, to be sorted by size, largest first.
    pub fn default() -> (listing: DirListing)
        ensures
            listing.wf(),
            listing@.dotdot is None,
            listing@.entries.len() == 0,
            listing@.selected is None,
            listing@.sort_mode == SortMode::Reversed(SortField::Size),
            listing@.fs is None,
            listing@.stats.max_size == 0,
            listing@.stats.max_rentries == 0,
            listing@.stats.total_size == 0,
            listing@.stats.total_rentries == 0,
    {
        DirListing {
            dotdot: None,
            entries: Vec::new(),
            selected: None,
            sort_mode: SortMode::Reversed(SortField::Size),
            stats: ListingStats { max_rentries: 0, total_rentries: 0, max_size: 0, total_size: 0 },
            fs: None,
        }
    }

    /// The storage slot shown at display index `display`; the parent entry
    /// has none.
    pub fn storage_slot(&self, display: usize) -> (slot: Option<usize>)
        requires
            self.wf(),
            display < self@.len(),
        ensures
            match slot {
                Some(k) => self@.storage_slot(display as int) == Some(k as int),
                None => self@.storage_slot(display as int) is None,
            },
    {
        let offset: usize = if self.dotdot.is_some() {
            1
        } else {
            0
        };
        if display < offset {
            None
        } else if self.sort_mode.is_reversed() {
            Some(self.entries.len() - (display - offset) - 1)
        } else {
            Some(display - offset)
        }
    }

    /// The display index at which storage slot `slot` is shown.
    pub fn display_index(&self, slot: usize) -> (display: usize)
        requires
            self.wf(),
            slot < self@.entries.len(),
        ensures
            display == self@.display_index(slot as int),
    {
        let offset: usize = if self.dotdot.is_some() {
            1
        } else {
            0
        };
        if self.sort_mode.is_reversed() {
            offset + (self.entries.len() - slot - 1)
        } else {
            offset + slot
        }
    }

    /// The entries in the order in which they are displayed.
    pub fn iter_entries(&self) -> (shown: Vec<&DirEntry>)
        requires
            self.wf(),
        ensures
            shown.len() == self@.len(),
            forall|i: int| 0 <= i < shown.len() ==> (#[trigger] shown@[i])@ == self@.displayed()[i],
    {
        let mut shown: Vec<&DirEntry> = Vec::new();
        let n = self.len();
        let mut i: usize = 0;
        while i < n
            invariant
                self.wf(),
                n == self@.len(),
                i <= n,
                shown.len() == i,
                forall|k: int| 0 <= k < i ==> (#[trigger] shown@[k])@ == self@.displayed()[k],
            decreases n - i,
        {
            shown.push(self.get(i));
            i += 1;
        }
        shown
    }

    /// The entry displayed at `idx`. Index 0 is the parent entry if the
    /// listing has one.
    pub fn get(&self, idx: usize) -> (entry: &DirEntry)
        requires
            self.wf(),
            idx < self@.len(),
        ensures
            entry@ == self@.displayed()[idx as int],
            idx < self@.offset() ==> entry@ == DirEntry::dotdot_view(),
    {
        proof {
            lemma_display_storage_round_trip(self@, idx as int);
        }
        match self.storage_slot(idx) {
            Some(slot) => &self.entries[slot],
            None => match &self.dotdot {
                Some(parent) => parent,
                None => &self.entries[0],
            },
        }
    }

    /// How many entries are displayed, the parent entry counted in.
    pub fn len(&self) -> (n: usize)
        requires
            self.wf(),
        ensures
            n == self@.len(),
    {
        let len = self.entries.len();
        if self.dotdot.is_some() {
            len + 1
        } else {
            len
        }
    }

    /// Moves the cursor `by` entries down, stopping at the last one. Without
    /// a cursor it goes to the first entry.
    pub fn select_next(&mut self, by: usize)
        requires
            old(self).wf(),
        ensures
            final(self).wf(),
            final(self)@ == old(self)@.with_selected(Some(old(self)@.next_index(by))),
    {
        let len = self.len();
        match self.selected {
            Some(idx) => {
                let last = len.saturating_sub(1);
                let moved = idx.saturating_add(by);
                let next = if moved < last {
                    moved
                } else {
                    last
                };
                self.selected = Some(next);
            },
            None => {
                self.selected = Some(0);
            },
        }
    }

    /// Moves the cursor `by` entries up, stopping at the first one. Without a
    /// cursor it goes to the last entry.
    pub fn select_prev(&mut self, by: usize)
        requires
            old(self).wf(),
        ensures
            final(self).wf(),
            final(self)@ == old(self)@.with_selected(Some(old(self)@.prev_index(by))),
    {
        let len = self.len();
        match self.selected {
            Some(idx) => {
                self.selected = Some(idx.saturating_sub(by));
            },
            None => {
                self.selected = Some(len.saturating_sub(1));
            },
        }
    }

    /// Select the entry at the given index, or the last entry if the index is
    /// out of bounds.
    pub fn saturating_select(&mut self, idx: usize) -> (chosen: usize)
        requires
            old(self).wf(),
        ensures
            final(self).wf(),
            chosen == old(self)@.clamped(idx),
            final(self)@ == old(self)@.with_selected(Some(chosen)),
    {
        let len = self.len();
        let chosen = if idx < len {
            idx
        } else {
            len.saturating_sub(1)
        };
        self.selected = Some(chosen);
        chosen
    }

    /// Moves the cursor to the first entry.
    pub fn select_first(&mut self)
        requires
            old(self).wf(),
        ensures
            final(self).wf(),
            final(self)@ == old(self)@.with_selected(Some(0usize)),
    {
        self.selected = Some(0);
    }

    /// Moves the cursor to the last entry. An empty listing keeps its cursor.
    pub fn select_last(&mut self)
        requires
            old(self).wf(),
        ensures
            final(self).wf(),
            final(self)@ == old(self)@.with_selected(
                if old(self)@.len() > 0 {
                    Some((old(self)@.len() - 1) as usize)
                } else {
                    old(self)@.selected
                },
            ),
    {
        let len = self.len();
        if len > 0 {
            self.selected = Some(len - 1);
        }
    }

    /// Moves the cursor to the first displayed entry named `name` and gives
    /// its index. Where no entry has that name the cursor stays and nothing
    /// is given.
    pub fn select_by_name(&mut self, name: &str) -> (found: Option<usize>)
        requires
            old(self).wf(),
        ensures
            final(self).wf(),
            found == first_named(old(self)@.displayed(), name@),
            is_first_named(old(self)@.displayed(), name@, found),
            final(self)@ == old(self)@.with_selected(
                match found {
                    Some(i) => Some(i),
                    None => old(self)@.selected,
                },
            ),
    {
        let n = self.len();
        let mut i: usize = 0;
        while i < n
            invariant
                self.wf(),
                *self == *old(self),
                n == self@.len(),
                i <= n,
                forall|k: int| 0 <= k < i ==> (#[trigger] self@.displayed()[k]).name != name@,
            decreases n - i,
        {
            if str_eq(self.get(i).name.as_str(), name) {
                proof {
                    lemma_first_named(self@.displayed(), name@);
                    assert(is_first_named(self@.displayed(), name@, Some(i)));
                }
                self.selected = Some(i);
                return Some(i);
            }
            i += 1;
        }
        proof {
            assert(self@.displayed().len() == n);
            lemma_first_named(self@.displayed(), name@);
            assert(is_first_named(self@.displayed(), name@, None));
        }
        None
    }

    /// The kind of the filesystem that the listing is of.
    pub fn fs(&self) -> (fs: Option<FSType>)
        ensures
            fs == self@.fs,
    {
        self.fs
    }

    /// The figures that the gauges of the listing are measured against.
    pub fn stats(&self) -> (stats: ListingStats)
        ensures
            stats == self@.stats,
    {
        self.stats
    }

    /// The display index that the cursor is on.
    pub fn selected(&self) -> (selected: Option<usize>)
        ensures
            selected == self@.selected,
    {
        self.selected
    }

    /// The mode that the listing is sorted and shown by.
    pub fn sort_mode(&self) -> (mode: SortMode)
        ensures
            mode == self@.sort_mode,
    {
        self.sort_mode
    }

    /// Sorts the listing by `sort_mode`. A mode with the field that the
    /// listing is sorted by only turns the display round; another field
    /// sorts the storage anew, ascending, and is displayed as the mode says.
    pub fn sort(&mut self, sort_mode: SortMode)
        requires
            old(self).wf(),
        ensures
            final(self).wf(),
            old(self)@.sorted_to(final(self)@, sort_mode),
    {
        if self.sort_mode.same_field(&sort_mode) {
            self.sort_mode = sort_mode;
            return ;
        }
        let ghost held = views(self.entries@);
        sort(&mut self.entries, sort_mode);
        proof {
            lemma_sort_keeps_trust(held, views(self.entries@), sort_mode.spec_field(), self.fs);
            lemma_stable_sort_ascending(held, views(self.entries@), sort_mode.spec_field());
            lemma_same_entries_same_maxima(held, views(self.entries@));
        }
        self.sort_mode = sort_mode;
    }

    /// Whether the listing is of a filesystem that keeps recursive totals.
    pub fn is_ceph(&self) -> (r: bool)
        ensures
            r == accounts_recursively(self@.fs),
    {
        match self.fs {
            Some(fs) => fs.is_ceph(),
            None => false,
        }
    }
}

} // verus!
