use cephdu::entry::{DirEntry, EntryKind, SortField, SortMode, Stat};

fn stat_of(is_dir: bool, is_symlink: bool, len: u64) -> Stat {
    Stat { is_dir, is_symlink, len, uid: 1000, gid: 100, ctime: 1_600_000_000 }
}

#[test]
fn sort_mode_knows_its_field() {
    assert_eq!(*SortMode::Normal(SortField::Name).field(), SortField::Name);
    assert_eq!(*SortMode::Reversed(SortField::Size).field(), SortField::Size);
    assert_eq!(*SortMode::Reversed(SortField::CTime).field(), SortField::CTime);
}

#[test]
fn sort_mode_knows_its_direction() {
    assert!(!SortMode::Normal(SortField::Owner).is_reversed());
    assert!(SortMode::Reversed(SortField::Owner).is_reversed());
}

#[test]
fn as_reversed_flips_the_direction_and_keeps_the_field() {
    assert_eq!(
        SortMode::Normal(SortField::Rentries).as_reversed(),
        SortMode::Reversed(SortField::Rentries)
    );
    assert_eq!(
        SortMode::Reversed(SortField::Rentries).as_reversed(),
        SortMode::Normal(SortField::Rentries)
    );
}

#[test]
fn reversing_a_mode_twice_gives_it_back() {
    for field in
        [SortField::Name, SortField::Size, SortField::Rentries, SortField::Owner, SortField::CTime]
    {
        let mode = SortMode::Normal(field);
        assert_eq!(mode.as_reversed().as_reversed(), mode);
    }
}

#[test]
fn same_field_ignores_the_direction() {
    let a = SortMode::Normal(SortField::Size);
    assert!(a.same_field(&SortMode::Reversed(SortField::Size)));
    assert!(a.same_field(&SortMode::Normal(SortField::Size)));
    assert!(!a.same_field(&SortMode::Normal(SortField::Name)));
    assert!(!a.same_field(&SortMode::Reversed(SortField::Rentries)));
}

#[test]
fn directory_entry_counts_what_is_below_it() {
    let e = DirEntry::from(
        "logs",
        &stat_of(true, false, 4096),
        Some("11"),
        Some("1700000000.5"),
        "alice".to_string(),
        "staff".to_string(),
    );
    assert_eq!(e.name, "logs/");
    assert_eq!(e.kind, EntryKind::Dir);
    assert_eq!(e.size, Some(4096));
    assert_eq!(e.rentries, Some(10));
    assert_eq!(e.user, Some("alice".to_string()));
    assert_eq!(e.group, Some("staff".to_string()));
    assert_eq!(e.ctime, Some(1_700_000_000));
}

#[test]
fn rentries_is_the_raw_value_less_one() {
    let s = stat_of(true, false, 0);
    let of = |attr: Option<&str>| {
        DirEntry::from("d", &s, attr, None, "u".to_string(), "g".to_string()).rentries
    };
    assert_eq!(of(Some("1")), Some(0));
    assert_eq!(of(Some("2")), Some(1));
    assert_eq!(of(Some("1000001\n")), Some(1_000_000));
    assert_eq!(of(Some("0")), Some(0));
    assert_eq!(of(None), None);
    assert_eq!(of(Some("garbage")), None);
}

#[test]
fn file_entry_has_no_recursive_count() {
    let e = DirEntry::from(
        "notes.txt",
        &stat_of(false, false, 1234),
        Some("11"),
        Some("1700000000.5"),
        "1000".to_string(),
        "100".to_string(),
    );
    assert_eq!(e.name, "notes.txt");
    assert_eq!(e.kind, EntryKind::File);
    assert_eq!(e.size, Some(1234));
    assert_eq!(e.rentries, None);
    assert_eq!(e.ctime, Some(1_600_000_000));
}

#[test]
fn symlink_entry_is_told_apart() {
    let e = DirEntry::from(
        "link",
        &stat_of(false, true, 9),
        None,
        None,
        "u".to_string(),
        "g".to_string(),
    );
    assert_eq!(e.kind, EntryKind::Symlink);
    assert_eq!(e.name, "link");
    assert_eq!(e.rentries, None);
}

#[test]
fn directory_wins_over_symlink() {
    let e = DirEntry::from(
        "both",
        &stat_of(true, true, 9),
        None,
        None,
        "u".to_string(),
        "g".to_string(),
    );
    assert_eq!(e.kind, EntryKind::Dir);
    assert_eq!(e.name, "both/");
}

#[test]
fn change_time_before_the_epoch_is_unknown() {
    let mut s = stat_of(false, false, 1);
    s.ctime = -5;
    let e = DirEntry::from("old", &s, None, None, "u".to_string(), "g".to_string());
    assert_eq!(e.ctime, None);
    s.ctime = 0;
    let e = DirEntry::from("epoch", &s, None, None, "u".to_string(), "g".to_string());
    assert_eq!(e.ctime, Some(0));
}

#[test]
fn directory_without_recursive_change_time_has_none() {
    let e = DirEntry::from(
        "d",
        &stat_of(true, false, 1),
        Some("3"),
        None,
        "u".to_string(),
        "g".to_string(),
    );
    assert_eq!(e.ctime, None);
    assert_eq!(e.rentries, Some(2));
}

#[test]
fn parent_entry_knows_nothing_but_its_name() {
    let e = DirEntry::dotdot();
    assert_eq!(e.name, "..");
    assert_eq!(e.kind, EntryKind::Dir);
    assert_eq!(e.size, None);
    assert_eq!(e.rentries, None);
    assert_eq!(e.user, None);
    assert_eq!(e.group, None);
    assert_eq!(e.ctime, None);
}

#[test]
fn duplicate_is_equal_in_every_field() {
    let e = DirEntry::from(
        "logs",
        &stat_of(true, false, 4096),
        Some("11"),
        Some("17.5"),
        "alice".to_string(),
        "staff".to_string(),
    );
    let d = e.duplicate();
    assert_eq!(d.name, e.name);
    assert_eq!(d.kind, e.kind);
    assert_eq!(d.size, e.size);
    assert_eq!(d.rentries, e.rentries);
    assert_eq!(d.user, e.user);
    assert_eq!(d.group, e.group);
    assert_eq!(d.ctime, e.ctime);
}

#[test]
fn sizes_counts_and_times_are_shown_largest_first_by_default() {
    assert_eq!(SortField::Name.default_mode(), SortMode::Normal(SortField::Name));
    assert_eq!(SortField::Owner.default_mode(), SortMode::Normal(SortField::Owner));
    assert_eq!(SortField::Size.default_mode(), SortMode::Reversed(SortField::Size));
    assert_eq!(SortField::Rentries.default_mode(), SortMode::Reversed(SortField::Rentries));
    assert_eq!(SortField::CTime.default_mode(), SortMode::Reversed(SortField::CTime));
}
