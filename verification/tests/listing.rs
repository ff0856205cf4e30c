use cephdu::entry::{DirEntry, EntryKind, SortField, SortMode};
use cephdu::listing::DirListing;
use cephdu::probe::FSType;

const CEPH: i64 = 0x00c36400;
const EXT4: i64 = 0xEF53;

fn file(name: &str, size: usize) -> DirEntry {
    DirEntry {
        name: name.to_string(),
        kind: EntryKind::File,
        size: Some(size),
        rentries: None,
        user: Some("u".to_string()),
        group: Some("g".to_string()),
        ctime: Some(size),
    }
}

fn dir(name: &str, size: usize, rentries: Option<usize>) -> DirEntry {
    DirEntry {
        name: format!("{}/", name),
        kind: EntryKind::Dir,
        size: Some(size),
        rentries,
        user: Some("u".to_string()),
        group: Some("g".to_string()),
        ctime: None,
    }
}

fn cwd_entry(size: usize, rentries: Option<usize>) -> DirEntry {
    dir("here", size, rentries)
}

fn sample(is_root: bool, magic: Option<i64>, mode: SortMode) -> DirListing {
    DirListing::from(
        is_root,
        magic.map(FSType::new),
        &cwd_entry(7000, Some(42)),
        vec![file("b", 200), dir("d", 5000, Some(30)), file("a", 1000), file("c", 30)],
        mode,
    )
}

fn shown(listing: &DirListing) -> Vec<String> {
    listing.iter_entries().iter().map(|e| e.name.clone()).collect()
}

#[test]
fn listing_shows_the_parent_first_then_the_sorted_children() {
    let l = sample(false, Some(CEPH), SortMode::Normal(SortField::Name));
    assert_eq!(shown(&l), vec!["..", "a", "b", "c", "d/"]);
    assert_eq!(l.len(), 5);
    assert_eq!(l.selected(), Some(0));
    assert_eq!(l.sort_mode(), SortMode::Normal(SortField::Name));
}

#[test]
fn root_listing_has_no_parent_entry() {
    let l = sample(true, Some(CEPH), SortMode::Normal(SortField::Name));
    assert_eq!(shown(&l), vec!["a", "b", "c", "d/"]);
    assert_eq!(l.len(), 4);
}

#[test]
fn reversed_mode_shows_the_children_back_to_front() {
    let l = sample(false, Some(CEPH), SortMode::Reversed(SortField::Size));
    assert_eq!(shown(&l), vec!["..", "d/", "a", "b", "c"]);
    let l = sample(true, Some(CEPH), SortMode::Reversed(SortField::Size));
    assert_eq!(shown(&l), vec!["d/", "a", "b", "c"]);
}

#[test]
fn get_agrees_with_the_displayed_order() {
    for mode in [SortMode::Normal(SortField::Size), SortMode::Reversed(SortField::Size)] {
        for is_root in [false, true] {
            let l = sample(is_root, Some(CEPH), mode);
            let names = shown(&l);
            for i in 0..l.len() {
                assert_eq!(l.get(i).name, names[i]);
            }
        }
    }
}

#[test]
fn stats_take_maxima_from_children_and_totals_from_the_directory() {
    let l = sample(false, Some(CEPH), SortMode::Normal(SortField::Name));
    assert_eq!(l.stats.max_size, 5000);
    assert_eq!(l.stats.max_rentries, 30);
    assert_eq!(l.stats.total_size, 7000);
    assert_eq!(l.stats.total_rentries, 42);
    assert!(l.is_ceph());
}

#[test]
fn totals_may_differ_from_the_sum_of_the_children() {
    let l = DirListing::from(
        false,
        Some(FSType::new(CEPH)),
        &cwd_entry(10, Some(1)),
        vec![file("a", 1000), dir("d", 5000, Some(30))],
        SortMode::Normal(SortField::Name),
    );
    assert_eq!(l.stats.total_size, 10);
    assert_eq!(l.stats.total_rentries, 1);
    assert_eq!(l.stats.max_size, 5000);
}

#[test]
fn directory_sizes_are_not_trusted_without_recursive_accounting() {
    for magic in [Some(EXT4), None] {
        let l = sample(false, magic, SortMode::Normal(SortField::Name));
        assert!(!l.is_ceph());
        let entries = l.iter_entries();
        let d = entries.iter().find(|e| e.name == "d/").unwrap();
        assert_eq!(d.size, None);
        assert_eq!(d.rentries, Some(30));
        let a = entries.iter().find(|e| e.name == "a").unwrap();
        assert_eq!(a.size, Some(1000));
        assert_eq!(l.stats.max_size, 1000);
        assert_eq!(l.stats.max_rentries, 30);
        assert_eq!(l.stats.total_size, 0);
        assert_eq!(l.stats.total_rentries, 42);
    }
}

#[test]
fn untrusted_directory_sorts_as_unknown_size() {
    let l = sample(false, Some(EXT4), SortMode::Reversed(SortField::Size));
    assert_eq!(shown(&l), vec!["..", "a", "b", "c", "d/"]);
}

#[test]
fn unknown_totals_count_as_zero() {
    let cwd = DirEntry {
        name: "x/".to_string(),
        kind: EntryKind::Dir,
        size: None,
        rentries: None,
        user: None,
        group: None,
        ctime: None,
    };
    let l = DirListing::from(
        false,
        Some(FSType::new(CEPH)),
        &cwd,
        vec![file("a", 5)],
        SortMode::Normal(SortField::Name),
    );
    assert_eq!(l.stats.total_size, 0);
    assert_eq!(l.stats.total_rentries, 0);
    assert_eq!(l.stats.max_rentries, 0);
    assert_eq!(l.stats.max_size, 5);
}

#[test]
fn default_listing_is_empty_without_cursor() {
    let l = DirListing::default();
    assert_eq!(l.len(), 0);
    assert_eq!(l.selected(), None);
    assert_eq!(l.sort_mode(), SortMode::Reversed(SortField::Size));
    assert!(!l.is_ceph());
    assert!(l.iter_entries().is_empty());
    assert_eq!(l.stats.max_size, 0);
    assert_eq!(l.stats.total_size, 0);
}

#[test]
fn display_and_storage_indices_are_inverse() {
    for mode in [SortMode::Normal(SortField::Name), SortMode::Reversed(SortField::Name)] {
        for is_root in [false, true] {
            let l = sample(is_root, Some(CEPH), mode);
            for display in 0..l.len() {
                match l.storage_slot(display) {
                    Some(slot) => {
                        assert!(slot < 4);
                        assert_eq!(l.display_index(slot), display);
                    }
                    None => {
                        assert!(!is_root);
                        assert_eq!(display, 0);
                    }
                }
            }
            for slot in 0..4 {
                assert_eq!(l.storage_slot(l.display_index(slot)), Some(slot));
            }
        }
    }
}

#[test]
fn storage_slot_follows_the_documented_formula() {
    let l = sample(false, Some(CEPH), SortMode::Normal(SortField::Name));
    assert_eq!(l.storage_slot(0), None);
    assert_eq!(l.storage_slot(1), Some(0));
    assert_eq!(l.storage_slot(4), Some(3));
    let l = sample(false, Some(CEPH), SortMode::Reversed(SortField::Name));
    assert_eq!(l.storage_slot(0), None);
    assert_eq!(l.storage_slot(1), Some(3));
    assert_eq!(l.storage_slot(2), Some(2));
    assert_eq!(l.storage_slot(4), Some(0));
    let l = sample(true, Some(CEPH), SortMode::Reversed(SortField::Name));
    assert_eq!(l.storage_slot(0), Some(3));
    assert_eq!(l.storage_slot(3), Some(0));
}

#[test]
fn select_next_stops_at_the_last_entry() {
    let mut l = sample(false, Some(CEPH), SortMode::Normal(SortField::Name));
    l.select_next(1);
    assert_eq!(l.selected(), Some(1));
    l.select_next(2);
    assert_eq!(l.selected(), Some(3));
    l.select_next(10);
    assert_eq!(l.selected(), Some(4));
    l.select_next(usize::MAX);
    assert_eq!(l.selected(), Some(4));
    l.select_next(0);
    assert_eq!(l.selected(), Some(4));
}

#[test]
fn select_prev_stops_at_the_first_entry() {
    let mut l = sample(false, Some(CEPH), SortMode::Normal(SortField::Name));
    l.select_last();
    assert_eq!(l.selected(), Some(4));
    l.select_prev(1);
    assert_eq!(l.selected(), Some(3));
    l.select_prev(10);
    assert_eq!(l.selected(), Some(0));
    l.select_prev(usize::MAX);
    assert_eq!(l.selected(), Some(0));
}

#[test]
fn moving_without_a_cursor_goes_to_an_end() {
    let mut l = DirListing::default();
    l.select_next(3);
    assert_eq!(l.selected(), Some(0));
    let mut l = DirListing::default();
    l.select_prev(3);
    assert_eq!(l.selected(), Some(0));
    let mut l = DirListing::default();
    l.select_last();
    assert_eq!(l.selected(), None);
    l.select_first();
    assert_eq!(l.selected(), Some(0));
}

#[test]
fn saturating_select_clamps_to_the_last_entry() {
    let mut l = sample(false, Some(CEPH), SortMode::Normal(SortField::Name));
    assert_eq!(l.saturating_select(2), 2);
    assert_eq!(l.selected(), Some(2));
    assert_eq!(l.saturating_select(4), 4);
    assert_eq!(l.saturating_select(5), 4);
    assert_eq!(l.saturating_select(usize::MAX), 4);
    assert_eq!(l.selected(), Some(4));
    let mut empty = DirListing::default();
    assert_eq!(empty.saturating_select(3), 0);
    assert_eq!(empty.selected(), Some(0));
}

#[test]
fn select_by_name_moves_the_cursor_to_the_entry() {
    let mut l = sample(false, Some(CEPH), SortMode::Normal(SortField::Name));
    assert_eq!(l.select_by_name("c"), Some(3));
    assert_eq!(l.selected(), Some(3));
    assert_eq!(l.select_by_name(".."), Some(0));
    assert_eq!(l.selected(), Some(0));
    assert_eq!(l.select_by_name("d/"), Some(4));
    assert_eq!(l.get(l.selected().unwrap()).name, "d/");
}

#[test]
fn select_by_name_uses_the_current_display_order() {
    let mut l = sample(false, Some(CEPH), SortMode::Reversed(SortField::Name));
    assert_eq!(l.select_by_name("c"), Some(2));
    assert_eq!(l.select_by_name("d/"), Some(1));
    assert_eq!(l.select_by_name("a"), Some(4));
}

#[test]
fn select_by_unknown_name_leaves_the_cursor() {
    let mut l = sample(false, Some(CEPH), SortMode::Normal(SortField::Name));
    l.saturating_select(2);
    assert_eq!(l.select_by_name("nope"), None);
    assert_eq!(l.selected(), Some(2));
    assert_eq!(l.select_by_name("d"), None);
    assert_eq!(l.select_by_name(""), None);
    assert_eq!(l.select_by_name("A"), None);
    assert_eq!(l.selected(), Some(2));
}

#[test]
fn select_by_name_finds_the_first_of_equal_names() {
    let mut l = DirListing::from(
        true,
        Some(FSType::new(CEPH)),
        &cwd_entry(1, None),
        vec![file("x", 3), file("dup", 2), file("dup", 1)],
        SortMode::Reversed(SortField::Size),
    );
    assert_eq!(shown(&l), vec!["x", "dup", "dup"]);
    assert_eq!(l.select_by_name("dup"), Some(1));
    assert_eq!(l.get(1).size, Some(2));
}

#[test]
fn same_field_twice_restores_the_display_order() {
    let mut l = sample(false, Some(CEPH), SortMode::Reversed(SortField::Size));
    let before = shown(&l);
    l.sort(SortMode::Normal(SortField::Size));
    assert_eq!(shown(&l), vec!["..", "c", "b", "a", "d/"]);
    assert_eq!(l.sort_mode(), SortMode::Normal(SortField::Size));
    l.sort(SortMode::Reversed(SortField::Size));
    assert_eq!(shown(&l), before);
}

#[test]
fn another_field_sorts_the_storage_anew() {
    let mut l = sample(false, Some(CEPH), SortMode::Reversed(SortField::Size));
    l.sort(SortMode::Normal(SortField::Name));
    assert_eq!(shown(&l), vec!["..", "a", "b", "c", "d/"]);
    l.sort(SortMode::Reversed(SortField::Rentries));
    assert_eq!(shown(&l), vec!["..", "d/", "a", "b", "c"]);
    assert_eq!(l.storage_slot(1), Some(3));
}

#[test]
fn sorting_keeps_the_cursor_index_and_the_stats() {
    let mut l = sample(false, Some(CEPH), SortMode::Reversed(SortField::Size));
    l.saturating_select(2);
    l.sort(SortMode::Normal(SortField::Name));
    assert_eq!(l.selected(), Some(2));
    assert_eq!(l.len(), 5);
    assert_eq!(l.stats.max_size, 5000);
    assert_eq!(l.stats.total_size, 7000);
}

#[test]
fn stats_are_handed_out_as_they_are_held() {
    let l = sample(false, Some(CEPH), SortMode::Normal(SortField::Name));
    let stats = l.stats();
    assert_eq!(stats.max_size, l.stats.max_size);
    assert_eq!(stats.total_size, 7000);
    assert_eq!(stats.max_rentries, 30);
    assert_eq!(stats.total_rentries, 42);
}

#[test]
fn first_displayed_entry_is_the_parent_of_which_nothing_is_known() {
    for mode in [SortMode::Normal(SortField::Name), SortMode::Reversed(SortField::Size)] {
        let l = sample(false, Some(CEPH), mode);
        let parent = l.get(0);
        assert_eq!(parent.name, "..");
        assert_eq!(parent.kind, EntryKind::Dir);
        assert_eq!(parent.size, None);
        assert_eq!(parent.rentries, None);
        assert_eq!(parent.user, None);
        assert_eq!(parent.group, None);
        assert_eq!(parent.ctime, None);
        assert_eq!(l.storage_slot(0), None);
    }
}

#[test]
fn filesystem_kind_is_handed_out_as_it_is_held() {
    assert!(sample(false, Some(CEPH), SortMode::Normal(SortField::Name)).fs().unwrap().is_ceph());
    assert!(!sample(false, Some(EXT4), SortMode::Normal(SortField::Name)).fs().unwrap().is_ceph());
    assert!(sample(false, None, SortMode::Normal(SortField::Name)).fs().is_none());
}
