use cephdu::entry::{DirEntry, EntryKind, SortField, SortMode};
use cephdu::gauge::{Span, Tone};
use cephdu::listing::{DirListing, ListingStats};
use cephdu::probe::FSType;
use cephdu::timefmt::{change_time_text, date_pattern};
use cephdu::ui::{list_title, owner_widths, render_list, rentries_str, size_str, GAUGE_WIDTH};

const BAR: char = '\u{2503}';

fn stats() -> ListingStats {
    ListingStats { max_rentries: 40, total_rentries: 100, max_size: 2000, total_size: 4000 }
}

fn entry(kind: EntryKind) -> DirEntry {
    DirEntry {
        name: "data/".to_string(),
        kind,
        size: Some(1000),
        rentries: Some(10),
        user: Some("alice".to_string()),
        group: Some("staff".to_string()),
        ctime: Some(1_000_000_000),
    }
}

fn texts(spans: &[Span]) -> Vec<String> {
    spans.iter().map(|s| s.text.clone()).collect()
}

#[test]
fn sizes_below_a_thousand_are_in_bytes() {
    assert_eq!(size_str(Some(0), false), "0 B");
    assert_eq!(size_str(Some(1), false), "1 B");
    assert_eq!(size_str(Some(999), false), "999 B");
    assert_eq!(size_str(Some(0), true), "0   B");
    assert_eq!(size_str(Some(512), true), "512   B");
}

#[test]
fn larger_sizes_have_one_decimal_place_and_a_unit() {
    assert_eq!(size_str(Some(1000), false), "1.0 KB");
    assert_eq!(size_str(Some(1500), true), "1.5 KB");
    assert_eq!(size_str(Some(999_949), false), "999.9 KB");
    assert_eq!(size_str(Some(1_000_000), false), "1.0 MB");
    assert_eq!(size_str(Some(123_456_789), false), "123.5 MB");
    assert_eq!(size_str(Some(5_000_000_000), false), "5.0 GB");
    assert_eq!(size_str(Some(7_300_000_000_000), false), "7.3 TB");
    assert_eq!(size_str(Some(2_000_000_000_000_000), false), "2.0 PB");
    assert_eq!(size_str(Some(18_446_744_073_709_551_615), false), "18.4 EB");
}

#[test]
fn size_ties_go_to_the_even_tenth() {
    assert_eq!(size_str(Some(1250), false), "1.2 KB");
    assert_eq!(size_str(Some(1350), false), "1.4 KB");
    assert_eq!(size_str(Some(1050), false), "1.0 KB");
    assert_eq!(size_str(Some(1049), false), "1.0 KB");
    assert_eq!(size_str(Some(1051), false), "1.1 KB");
    assert_eq!(size_str(Some(999_950), false), "1000.0 KB");
}

#[test]
fn unknown_size_is_blank() {
    assert_eq!(size_str(None, false), "");
    assert_eq!(size_str(None, true), "");
    assert_eq!(rentries_str(None, false), "");
    assert_eq!(rentries_str(None, true), "");
}

#[test]
fn counts_below_a_thousand_are_plain() {
    assert_eq!(rentries_str(Some(0), false), "0");
    assert_eq!(rentries_str(Some(12), false), "12");
    assert_eq!(rentries_str(Some(12), true), "12    ");
    assert_eq!(rentries_str(Some(999), true), "999    ");
}

#[test]
fn larger_counts_have_one_decimal_place_and_a_letter() {
    assert_eq!(rentries_str(Some(1000), false), "1.0 K");
    assert_eq!(rentries_str(Some(1500), true), "1.5 K");
    assert_eq!(rentries_str(Some(2_340_000), false), "2.3 M");
    assert_eq!(rentries_str(Some(9_990_000_000), false), "10.0 G");
    assert_eq!(rentries_str(Some(4_000_000_000_000), false), "4.0 T");
}

#[test]
fn row_shows_size_gauges_count_and_name() {
    let spans = entry(EntryKind::Dir).row(20, &stats(), 0, 0, 0, None, false, false);
    assert_eq!(
        texts(&spans),
        vec![
            format!("  1.0 KB {}", BAR),
            "\u{2588}".repeat(7),
            " 25".to_string(),
            ".0%".to_string(),
            " ".repeat(7),
            format!("{}   10     {}", BAR, BAR),
            format!("{}  ", "\u{2588}".repeat(5)),
            " 10.0%".to_string(),
            " ".repeat(7),
            BAR.to_string(),
            " data/".to_string(),
        ]
    );
    assert_eq!(spans[0].tone, Tone::DirText);
    assert_eq!(spans[10].tone, Tone::DirText);
    assert_eq!(spans[2].tone, Tone::GaugeInverted);
    assert!(spans.iter().all(|s| !s.selected));
}

#[test]
fn row_of_a_file_has_the_other_text_tone() {
    let spans = entry(EntryKind::File).row(20, &stats(), 0, 0, 0, None, true, false);
    assert_eq!(spans[0].tone, Tone::OtherText);
    assert_eq!(spans.last().unwrap().tone, Tone::OtherText);
    assert!(spans.iter().all(|s| s.selected));
    let spans = entry(EntryKind::Symlink).row(20, &stats(), 0, 0, 0, None, true, false);
    assert_eq!(spans[0].tone, Tone::OtherText);
}

#[test]
fn row_shows_the_owner_in_aligned_columns() {
    let spans = entry(EntryKind::File).row(20, &stats(), 8, 7, 0, None, false, true);
    let t = texts(&spans);
    assert_eq!(t[t.len() - 3], "    alice");
    assert_eq!(t[t.len() - 2], ":staff  ");
    assert_eq!(t[t.len() - 1], " data/");
    let narrow = entry(EntryKind::File).row(20, &stats(), 2, 2, 0, None, false, true);
    let t = texts(&narrow);
    assert_eq!(t[t.len() - 3], " alice");
    assert_eq!(t[t.len() - 2], ":staff");
}

#[test]
fn row_without_owner_shows_none() {
    let mut e = entry(EntryKind::File);
    e.user = None;
    let spans = e.row(20, &stats(), 8, 7, 0, None, false, true);
    let t = texts(&spans);
    assert_eq!(t[t.len() - 2], ":staff  ");
    assert_eq!(t[t.len() - 3], BAR.to_string());
    e.group = None;
    let spans = e.row(20, &stats(), 8, 7, 0, None, false, true);
    let t = texts(&spans);
    assert_eq!(t[t.len() - 2], BAR.to_string());
}

#[test]
fn row_shows_the_change_time_left_aligned() {
    let spans = entry(EntryKind::File).row(
        20,
        &stats(),
        0,
        0,
        12,
        Some("Sep  9  2001".to_string()),
        false,
        false,
    );
    let t = texts(&spans);
    assert_eq!(t[t.len() - 2], " Sep  9  2001");
    let spans =
        entry(EntryKind::File).row(20, &stats(), 0, 0, 12, Some("now".to_string()), false, false);
    let t = texts(&spans);
    assert_eq!(t[t.len() - 2], " now         ");
}

#[test]
fn row_of_unknown_figures_has_empty_gauges_without_label() {
    let e = DirEntry::dotdot();
    let spans = e.row(20, &stats(), 0, 0, 0, None, false, true);
    assert_eq!(
        texts(&spans),
        vec![
            format!("         {}", BAR),
            " ".repeat(7),
            " ".repeat(13),
            format!("{}          {}", BAR, BAR),
            " ".repeat(7),
            " ".repeat(13),
            BAR.to_string(),
            " ..".to_string(),
        ]
    );
}

#[test]
fn row_with_empty_stats_shows_zero_shares() {
    let none = ListingStats { max_rentries: 0, total_rentries: 0, max_size: 0, total_size: 0 };
    let spans = entry(EntryKind::File).row(20, &none, 0, 0, 0, None, false, false);
    let t = texts(&spans);
    assert_eq!(t[1], " ".repeat(7));
    assert_eq!(t[2], "  0.0%");
    assert_eq!(t[3], " ".repeat(7));
}

#[test]
fn listitem_writes_the_change_time_as_a_date() {
    let e = entry(EntryKind::File);
    let spans = e.to_listitem(20, &stats(), 0, 0, 12, 2024, false, false, true, 0);
    let t = texts(&spans);
    assert_eq!(t[t.len() - 2], " Sep  9  2001");
    let spans = e.to_listitem(20, &stats(), 0, 0, 12, 2001, false, false, true, 0);
    let t = texts(&spans);
    assert_eq!(t[t.len() - 2], " Sep  9 01:46");
    let spans = e.to_listitem(20, &stats(), 0, 0, 12, 2001, false, false, true, -7200);
    let t = texts(&spans);
    assert_eq!(t[t.len() - 2], " Sep  8 23:46");
}

#[test]
fn listitem_hides_the_change_time_unless_asked() {
    let e = entry(EntryKind::File);
    let with = e.to_listitem(20, &stats(), 0, 0, 12, 2024, false, false, true, 0);
    let without = e.to_listitem(20, &stats(), 0, 0, 12, 2024, false, false, false, 0);
    assert_eq!(with.len(), without.len() + 1);
    let mut timeless = entry(EntryKind::File);
    timeless.ctime = None;
    let spans = timeless.to_listitem(20, &stats(), 0, 0, 12, 2024, false, false, true, 0);
    assert_eq!(spans.len(), without.len());
    let mut late = entry(EntryKind::File);
    late.ctime = Some(253_402_300_800);
    let spans = late.to_listitem(20, &stats(), 0, 0, 12, 2024, false, false, true, 0);
    assert_eq!(spans.len(), without.len());
}

#[test]
fn change_time_is_written_in_the_given_zone() {
    let text = |secs: usize, offset: i32, year: isize| change_time_text(secs, offset, year);
    assert_eq!(text(1_000_000_000, 0, 2024), Some("Sep  9  2001".to_string()));
    assert_eq!(text(1_000_000_000, 9 * 3600, 2024), Some("Sep  9  2001".to_string()));
    assert_eq!(text(1_000_000_000, -2 * 3600, 2024), Some("Sep  8  2001".to_string()));
    assert_eq!(text(1_000_000_000, 0, 2001), Some("Sep  9 01:46".to_string()));
    assert_eq!(text(1_000_000_000, 19_800, 2001), Some("Sep  9 07:16".to_string()));
    assert_eq!(text(1_000_000_000, -2 * 3600, 2001), Some("Sep  8 23:46".to_string()));
    assert_eq!(text(0, 0, 1970), Some("Jan  1 00:00".to_string()));
    assert_eq!(text(0, 0, 1971), Some("Jan  1  1970".to_string()));
    assert_eq!(text(1_709_210_096, 0, 2024), Some("Feb 29 12:34".to_string()));
    assert_eq!(text(1_735_689_599, 0, 2024), Some("Dec 31 23:59".to_string()));
}

#[test]
fn year_of_a_change_time_is_that_of_its_zone() {
    assert_eq!(change_time_text(0, -3600, 1969), Some("Dec 31 23:00".to_string()));
    assert_eq!(change_time_text(0, -3600, 1970), Some("Dec 31  1969".to_string()));
    assert_eq!(change_time_text(1_735_689_599, 1, 2025), Some("Jan  1 00:00".to_string()));
    assert_eq!(change_time_text(1_735_689_599, 1, 2024), Some("Jan  1  2025".to_string()));
}

#[test]
fn change_time_behind_the_last_shown_year_has_no_text() {
    assert_eq!(change_time_text(253_402_300_800, 0, 2024), None);
    assert_eq!(change_time_text(usize::MAX, 0, 2024), None);
    assert!(change_time_text(253_402_300_799, 0, 2024).is_some());
    assert!(change_time_text(0, 0, 1970).is_some());
}

#[test]
fn zone_of_a_day_or_more_has_no_text() {
    assert_eq!(change_time_text(1_000_000_000, 86_400, 2024), None);
    assert_eq!(change_time_text(1_000_000_000, -86_400, 2024), None);
    assert_eq!(change_time_text(1_000_000_000, i32::MAX, 2024), None);
    assert_eq!(change_time_text(1_000_000_000, i32::MIN, 2024), None);
    assert!(change_time_text(1_000_000_000, 86_399, 2024).is_some());
    assert!(change_time_text(1_000_000_000, -86_399, 2024).is_some());
}

#[test]
fn every_change_time_up_to_the_last_shown_year_has_a_text() {
    for secs in [0usize, 1, 59, 86_399, 86_400, 951_782_400, 2_147_483_647, 2_147_483_648,
        4_294_967_295, 32_503_680_000, 253_402_214_400, 253_402_300_798, 253_402_300_799]
    {
        for offset in [-86_399, -3600, 0, 19_800, 86_399] {
            for year in [1969isize, 1970, 2038, 9999, 10_000] {
                let text = change_time_text(secs, offset, year);
                assert!(text.is_some(), "{}", secs);
                assert!(!text.unwrap().is_empty(), "{}", secs);
            }
        }
    }
}

#[test]
fn date_of_this_year_shows_the_time_of_day() {
    assert_eq!(date_pattern(2024, 2024), "%b %e %H:%M");
    assert_eq!(date_pattern(2023, 2024), "%b %e  %Y");
    assert_eq!(date_pattern(2025, 2024), "%b %e  %Y");
}

#[test]
fn change_time_text_is_twelve_cells_wide() {
    for secs in [0usize, 86_400 * 200, 1_000_000_000, 1_700_000_000, 4_000_000_000] {
        for year in [1970isize, 2001, 2023, 2096] {
            let text = change_time_text(secs, 3600, year).unwrap();
            assert_eq!(text.chars().count(), 12, "{:?}", text);
        }
    }
}

fn sample_listing() -> DirListing {
    let mut a = entry(EntryKind::File);
    a.name = "a".to_string();
    a.user = Some("bob".to_string());
    a.group = Some("operators".to_string());
    let mut d = entry(EntryKind::Dir);
    d.size = Some(3000);
    d.user = Some("charlotte".to_string());
    let cwd = DirEntry {
        name: "cwd/".to_string(),
        kind: EntryKind::Dir,
        size: Some(4000),
        rentries: Some(11),
        user: None,
        group: None,
        ctime: None,
    };
    DirListing::from(
        false,
        Some(FSType::new(0x00c36400)),
        &cwd,
        vec![a, d],
        SortMode::Reversed(SortField::Size),
    )
}

#[test]
fn title_names_the_directory_and_its_totals() {
    let l = sample_listing();
    assert_eq!(list_title("/mnt/ceph/home", &l.stats), " /mnt/ceph/home \u{2501}\u{2501} 4.0 KB, 11 files ");
    let none = ListingStats { max_rentries: 0, total_rentries: 0, max_size: 0, total_size: 0 };
    assert_eq!(list_title("/", &none), " / \u{2501}\u{2501} 0 B, 0 files ");
}

#[test]
fn owner_columns_are_as_wide_as_the_longest_names() {
    let l = sample_listing();
    assert_eq!(owner_widths(&l, true), (9, 9));
    assert_eq!(owner_widths(&l, false), (0, 0));
    assert_eq!(owner_widths(&DirListing::default(), true), (0, 0));
}

#[test]
fn picture_has_a_row_for_each_displayed_entry() {
    let mut l = sample_listing();
    l.saturating_select(1);
    let picture = render_list(&l, "/x", true, false, 2024, |_| 0);
    assert_eq!(picture.title, " /x \u{2501}\u{2501} 4.0 KB, 11 files ");
    assert_eq!(picture.rows.len(), 3);
    let names: Vec<String> =
        picture.rows.iter().map(|r| r.last().unwrap().text.clone()).collect();
    assert_eq!(names, vec![" ..", " data/", " a"]);
    let marked: Vec<bool> = picture.rows.iter().map(|r| r.iter().all(|s| s.selected)).collect();
    assert_eq!(marked, vec![false, true, false]);
    let unmarked: Vec<bool> = picture.rows.iter().map(|r| r.iter().all(|s| !s.selected)).collect();
    assert_eq!(unmarked, vec![true, false, true]);
    let row = texts(&picture.rows[1]);
    assert_eq!(row[0], format!("  3.0 KB {}", BAR));
    assert_eq!(row[row.len() - 3], " charlotte");
    assert_eq!(row[row.len() - 2], ":staff    ");
    let row = texts(&picture.rows[2]);
    assert_eq!(row[row.len() - 3], "       bob");
    assert_eq!(row[row.len() - 2], ":operators");
    for row in &picture.rows {
        let gauge_cells: usize = row
            .iter()
            .filter(|s| s.tone == Tone::Gauge || s.tone == Tone::GaugeInverted)
            .map(|s| s.text.chars().count())
            .sum();
        assert_eq!(gauge_cells, 2 * GAUGE_WIDTH);
    }
}

#[test]
fn picture_of_an_empty_listing_has_no_rows() {
    let picture = render_list(&DirListing::default(), "", false, true, 2024, |_| 0);
    assert!(picture.rows.is_empty());
    assert_eq!(picture.title, "  \u{2501}\u{2501} 0 B, 0 files ");
}

#[test]
fn picture_writes_each_change_time_in_the_zone_of_its_moment() {
    let cwd = DirEntry::dotdot();
    let mut summer = entry(EntryKind::File);
    summer.name = "summer".to_string();
    summer.size = Some(2);
    summer.ctime = Some(1_000_000_000);
    let mut winter = entry(EntryKind::File);
    winter.name = "winter".to_string();
    winter.size = Some(1);
    winter.ctime = Some(1_011_000_000);
    let mut timeless = entry(EntryKind::File);
    timeless.name = "timeless".to_string();
    timeless.size = Some(0);
    timeless.ctime = None;
    let l = DirListing::from(
        true,
        None,
        &cwd,
        vec![winter, timeless, summer],
        SortMode::Reversed(SortField::Size),
    );
    let asked = std::cell::RefCell::new(Vec::new());
    let zone = |secs: i64| {
        asked.borrow_mut().push(secs);
        if secs < 1_005_000_000 {
            7200
        } else {
            3600
        }
    };
    let picture = render_list(&l, "/", false, true, 2001, &zone);
    let times: Vec<String> = picture
        .rows
        .iter()
        .map(|r| if r.len() >= 2 { r[r.len() - 2].text.clone() } else { String::new() })
        .collect();
    assert_eq!(times[0], " Sep  9 03:46");
    assert_eq!(times[1], " Jan 14  2002");
    assert_eq!(picture.rows[2].len() + 1, picture.rows[0].len());
    assert_eq!(*asked.borrow(), vec![1_000_000_000, 1_011_000_000]);
    asked.borrow_mut().clear();
    let picture = render_list(&l, "/", false, false, 2001, &zone);
    assert_eq!(picture.rows[0].len(), picture.rows[2].len());
    assert!(asked.borrow().is_empty());
}
