//! One entry of a directory, as the browser shows it, and the modes by which
//! a listing is sorted.

use vstd::prelude::*;
use vstd::string::StringExecFns;

use crate::probe::{
    before_dot, entries_below, get_rctime, get_rentries, parse_unsigned, str_of, trimmed,
};

verus! {

/// What kind of thing an entry is.
#[derive(Debug, Clone, Copy, PartialEq, Eq, Structural)]
pub enum EntryKind {
    File,
    Dir,
    Symlink,
}

/// The fields that a listing can be sorted by.
#[derive(Debug, Clone, Copy, PartialEq, Eq, Structural)]
pub enum SortField {
    Name,
    Size,
    Rentries,
    Owner,
    CTime,
}

impl SortField {
    /// The mode in which a listing newly sorted by this field is shown:
    /// sizes, counts and times with the largest first, names and owners in
    /// ascending order.
    pub open spec fn spec_default_mode(self) -> SortMode {
        match self {
            SortField::Name => SortMode::Normal(SortField::Name),
            SortField::Size => SortMode::Reversed(SortField::Size),
            SortField::Rentries => SortMode::Reversed(SortField::Rentries),
            SortField::Owner => SortMode::Normal(SortField::Owner),
            SortField::CTime => SortMode::Reversed(SortField::CTime),
        }
    }

    /// The mode in which a listing newly sorted by this field is shown.
    pub fn default_mode(self) -> (mode: SortMode)
        ensures
            mode == self.spec_default_mode(),
            mode.spec_field() == self,
    {
        match self {
            SortField::Name => SortMode::Normal(SortField::Name),
            SortField::Size => SortMode::Reversed(SortField::Size),
            SortField::Rentries => SortMode::Reversed(SortField::Rentries),
            SortField::Owner => SortMode::Normal(SortField::Owner),
            SortField::CTime => SortMode::Reversed(SortField::CTime),
        }
    }
}

/// A field to sort by, and whether the order is shown back to front.
#[derive(Debug, Clone, Copy, PartialEq, Eq, Structural)]
pub enum SortMode {
    Normal(SortField),
    Reversed(SortField),
}

impl SortMode {
    /// The field that the mode sorts by.
    pub open spec fn spec_field(self) -> SortField {
        match self {
            SortMode::Normal(field) => field,
            SortMode::Reversed(field) => field,
        }
    }

    /// Whether the mode shows the order back to front.
    pub open spec fn spec_is_reversed(self) -> bool {
        self is Reversed
    }

    /// The same field, shown the other way round.
    pub open spec fn spec_as_reversed(self) -> SortMode {
        match self {
            SortMode::Normal(field) => SortMode::Reversed(field),
            SortMode::Reversed(field) => SortMode::Normal(field),
        }
    }

    /// The field that the mode sorts by.
    pub fn field(&self) -> (field: &SortField)
        ensures
            *field == self.spec_field(),
    {
        match self {
            SortMode::Normal(field) => field,
            SortMode::Reversed(field) => field,
        }
    }

    /// Whether the mode shows the order back to front.
    pub fn is_reversed(&self) -> (r: bool)
        ensures
            r == self.spec_is_reversed(),
    {
        match self {
            SortMode::Normal(_) => false,
            SortMode::Reversed(_) => true,
        }
    }

    /// The same field, shown the other way round.
    pub fn as_reversed(&self) -> (mode: SortMode)
        ensures
            mode == self.spec_as_reversed(),
    {
        match self {
            SortMode::Normal(field) => SortMode::Reversed(*field),
            SortMode::Reversed(field) => SortMode::Normal(*field),
        }
    }

    /// Whether the two modes sort by the same field.
    pub fn same_field(&self, other: &SortMode) -> (r: bool)
        ensures
            r == (self.spec_field() == other.spec_field()),
    {
        *self.field() == *other.field()
    }
}

/// What the filesystem's own record of an entry says.
#[derive(Debug, Clone, Copy)]
pub struct Stat {
    pub is_dir: bool,
    pub is_symlink: bool,
    /// Size in bytes.
    pub len: u64,
    pub uid: u32,
    pub gid: u32,
    /// Change time, in seconds since the epoch.
    pub ctime: i64,
}

impl Stat {
    /// The kind of the entry: a directory, else a symlink, else a file.
    pub open spec fn kind(self) -> EntryKind {
        if self.is_dir {
            EntryKind::Dir
        } else if self.is_symlink {
            EntryKind::Symlink
        } else {
            EntryKind::File
        }
    }
}

/// A single file or directory of the current directory. A field that is
/// `None` is unknown, which is not the same as zero.
#[derive(Debug, Clone)]
pub struct DirEntry {
    pub name: String,
    pub kind: EntryKind,
    pub size: Option<usize>,
    pub rentries: Option<usize>,
    pub user: Option<String>,
    pub group: Option<String>,
    pub ctime: Option<usize>,
}

/// A `DirEntry` with its texts as character sequences.
pub struct DirEntryView {
    pub name: Seq<char>,
    pub kind: EntryKind,
    pub size: Option<usize>,
    pub rentries: Option<usize>,
    pub user: Option<Seq<char>>,
    pub group: Option<Seq<char>>,
    pub ctime: Option<usize>,
}

/// The view of an optional text.
pub open spec fn text_of(s: Option<String>) -> Option<Seq<char>> {
    match s {
        Some(t) => Some(t@),
        None => None,
    }
}

impl View for DirEntry {
    type V = DirEntryView;

    open spec fn view(&self) -> DirEntryView {
        DirEntryView {
            name: self.name@,
            kind: self.kind,
            size: self.size,
            rentries: self.rentries,
            user: text_of(self.user),
            group: text_of(self.group),
            ctime: self.ctime,
        }
    }
}

/// The entries of `v`, each by its view.
pub open spec fn views(v: Seq<DirEntry>) -> Seq<DirEntryView> {
    v.map_values(|e: DirEntry| e@)
}

/// The name shown for an entry: a directory's name ends in a slash.
pub open spec fn shown_name(file_name: Seq<char>, kind: EntryKind) -> Seq<char> {
    if kind == EntryKind::Dir {
        file_name.push('/')
    } else {
        file_name
    }
}

/// The change time of a directory, from the text of its recursive change
/// time.
pub open spec fn changed_below(attr: Option<Seq<char>>) -> Option<usize> {
    match attr {
        Some(t) => parse_unsigned(before_dot(trimmed(t))),
        None => None,
    }
}

impl DirEntry {
    /// The entry for a file or directory named `file_name`.
    ///
    /// `stat` is the filesystem's record of it, `rentries_attr` and
    /// `rctime_attr` the texts of its recursive entry count and change time
    /// where it has them, `user` and `group` the texts to show for its owner.
    /// The recursive attributes count for directories only: a directory's
    /// change time is its recursive one, any other entry's is its own.
    pub fn from(
        file_name: &str,
        stat: &Stat,
        rentries_attr: Option<&str>,
        rctime_attr: Option<&str>,
        user: String,
        group: String,
    ) -> (entry: DirEntry)
        ensures
            entry@.kind == stat.kind(),
            entry@.name == shown_name(file_name@, stat.kind()),
            entry@.size == Some(stat.len as usize),
            entry@.rentries == if stat.is_dir {
                entries_below(str_of(rentries_attr))
            } else {
                None
            },
            entry@.user == Some(user@),
            entry@.group == Some(group@),
            entry@.ctime == if stat.is_dir {
                changed_below(str_of(rctime_attr))
            } else if stat.ctime >= 0 {
                Some(stat.ctime as usize)
            } else {
                None
            },
    {
        let kind = if stat.is_dir {
            EntryKind::Dir
        } else if stat.is_symlink {
            EntryKind::Symlink
        } else {
            EntryKind::File
        };
        let mut name = String::from_str(file_name);
        if stat.is_dir {
            name.push('/');
        }
        let size = Some(stat.len as usize);
        let rentries: Option<usize> = if stat.is_dir {
            get_rentries(rentries_attr)
        } else {
            None
        };
        let ctime: Option<usize> = if stat.is_dir {
            get_rctime(rctime_attr)
        } else if stat.ctime >= 0 {
            Some(stat.ctime as usize)
        } else {
            None
        };
        DirEntry { name, kind, size, rentries, user: Some(user), group: Some(group), ctime }
    }

    /// The entry that stands for the parent directory.
    pub fn dotdot() -> (entry: DirEntry)
        ensures
            entry@ == Self::dotdot_view(),
    {
        proof {
            reveal_strlit("..");
        }
        let name = String::from_str("..");
        assert(name@ =~= seq!['.', '.']);
        DirEntry {
            name,
            kind: EntryKind::Dir,
            size: None,
            rentries: None,
            user: None,
            group: None,
            ctime: None,
        }
    }

    /// The entry that stands for the parent directory: a directory named
    /// `..` of which nothing else is known.
    pub open spec fn dotdot_view() -> DirEntryView {
        DirEntryView {
            name: seq!['.', '.'],
            kind: EntryKind::Dir,
            size: None,
            rentries: None,
            user: None,
            group: None,
            ctime: None,
        }
    }

    /// A copy of this entry.
    pub fn duplicate(&self) -> (copy: DirEntry)
        ensures
            copy@ == self@,
    {
        DirEntry {
            name: self.name.clone(),
            kind: self.kind,
            size: self.size,
            rentries: self.rentries,
            user: self.user.clone(),
            group: self.group.clone(),
            ctime: self.ctime,
        }
    }
}

} // verus!
