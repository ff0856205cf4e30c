use cephdu::app::CdError;
use cephdu::entry::{DirEntry, EntryKind};
use cephdu::scan::{ls, Scan, ScanEvent};

fn child(i: usize) -> DirEntry {
    DirEntry {
        name: format!("f{}", i),
        kind: EntryKind::File,
        size: Some(i),
        rentries: None,
        user: None,
        group: None,
        ctime: None,
    }
}

fn names(v: &[DirEntry]) -> Vec<String> {
    v.iter().map(|e| e.name.clone()).collect()
}

#[test]
fn scan_hands_on_the_children_in_the_order_read() {
    let r = ls(vec![
        ScanEvent::Child(child(2)),
        ScanEvent::Child(child(0)),
        ScanEvent::Child(child(1)),
        ScanEvent::End,
    ]);
    assert_eq!(names(&r.unwrap()), vec!["f2", "f0", "f1"]);
}

#[test]
fn scan_of_an_empty_directory_gives_no_children() {
    assert!(ls(vec![ScanEvent::End]).unwrap().is_empty());
    assert!(ls(vec![]).unwrap().is_empty());
}

#[test]
fn events_running_out_count_as_the_end() {
    let r = ls(vec![ScanEvent::Child(child(1)), ScanEvent::Child(child(2))]);
    assert_eq!(names(&r.unwrap()), vec!["f1", "f2"]);
}

#[test]
fn interrupt_gives_the_interrupt_error() {
    let r = ls(vec![ScanEvent::Child(child(1)), ScanEvent::Interrupt, ScanEvent::Child(child(2))]);
    assert!(matches!(r, Err(CdError::Interrupted)));
    assert!(matches!(ls(vec![ScanEvent::Interrupt]), Err(CdError::Interrupted)));
}

#[test]
fn failure_gives_its_text() {
    let r = ls(vec![
        ScanEvent::Child(child(1)),
        ScanEvent::Failure("Permission denied (os error 13)".to_string()),
        ScanEvent::End,
    ]);
    match r {
        Err(CdError::Io(text)) => assert_eq!(text, "Permission denied (os error 13)"),
        other => panic!("{:?}", other),
    }
}

#[test]
fn first_stop_decides() {
    let r = ls(vec![ScanEvent::Failure("first".to_string()), ScanEvent::Interrupt]);
    assert!(matches!(r, Err(CdError::Io(_))));
    let r = ls(vec![ScanEvent::Interrupt, ScanEvent::Failure("late".to_string())]);
    assert!(matches!(r, Err(CdError::Interrupted)));
    let r = ls(vec![ScanEvent::Child(child(1)), ScanEvent::End, ScanEvent::Interrupt]);
    assert_eq!(names(&r.unwrap()), vec!["f1"]);
    let r = ls(vec![ScanEvent::End, ScanEvent::Child(child(1))]);
    assert!(r.unwrap().is_empty());
}

#[test]
fn scan_steps_one_event_at_a_time() {
    let mut scan = Scan::new();
    assert!(scan.is_reading());
    scan = scan.step(ScanEvent::Child(child(7)));
    assert!(scan.is_reading());
    scan = scan.step(ScanEvent::End);
    assert!(!scan.is_reading());
    scan = scan.step(ScanEvent::Interrupt);
    assert_eq!(names(&scan.finish().unwrap()), vec!["f7"]);
}

#[test]
fn stopped_scan_stays_stopped() {
    let mut scan = Scan::new().step(ScanEvent::Child(child(1))).step(ScanEvent::Interrupt);
    assert!(!scan.is_reading());
    scan = scan.step(ScanEvent::Child(child(2))).step(ScanEvent::End);
    assert!(matches!(scan.finish(), Err(CdError::Interrupted)));
}

#[test]
fn interrupting_a_large_directory_hands_on_nothing() {
    let mut events: Vec<ScanEvent> = (0..6000).map(|i| ScanEvent::Child(child(i))).collect();
    events.push(ScanEvent::Interrupt);
    events.extend((6000..10_000).map(|i| ScanEvent::Child(child(i))));
    events.push(ScanEvent::End);
    assert!(matches!(ls(events), Err(CdError::Interrupted)));
}

#[test]
fn error_texts_are_as_shown_to_the_user() {
    assert_eq!(CdError::Interrupted.text(), "Interrupted by user");
    assert_eq!(CdError::Io("No such file or directory (os error 2)".to_string()).text(),
        "No such file or directory (os error 2)");
}
