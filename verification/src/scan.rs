//! Reading the children of a directory, one event at a time, up to its end,
//! a failure or an interrupt.

use vstd::prelude::*;

use crate::app::{CdError, CdErrorView};
use crate::entry::{views, DirEntry, DirEntryView};

verus! {

/// One thing that happens while the children of a directory are read.
#[derive(Debug)]
pub enum ScanEvent {
    /// The next child has been read.
    Child(DirEntry),
    /// The user asks to stop.
    Interrupt,
    /// Reading failed; the text says how.
    Failure(String),
    /// There are no more children.
    End,
}

/// A `ScanEvent` with its entry and text as views.
pub enum ScanEventView {
    Child(DirEntryView),
    Interrupt,
    Failure(Seq<char>),
    End,
}

impl View for ScanEvent {
    type V = ScanEventView;

    open spec fn view(&self) -> ScanEventView {
        match self {
            ScanEvent::Child(e) => ScanEventView::Child(e@),
            ScanEvent::Interrupt => ScanEventView::Interrupt,
            ScanEvent::Failure(text) => ScanEventView::Failure(text@),
            ScanEvent::End => ScanEventView::End,
        }
    }
}

/// The events of `v`, each by its view.
pub open spec fn event_views(v: Seq<ScanEvent>) -> Seq<ScanEventView> {
    v.map_values(|e: ScanEvent| e@)
}

/// How far the reading of a directory has come.
#[derive(Debug)]
pub enum Scan {
    /// Still reading; these children have been read.
    Reading(Vec<DirEntry>),
    /// Read to the end; these are the children.
    Done(Vec<DirEntry>),
    /// Given up; nothing of what was read is kept.
    Stopped(CdError),
}

/// A `Scan` with its entries as views.
pub enum ScanView {
    Reading(Seq<DirEntryView>),
    Done(Seq<DirEntryView>),
    Stopped(CdErrorView),
}

impl View for Scan {
    type V = ScanView;

    open spec fn view(&self) -> ScanView {
        match self {
            Scan::Reading(v) => ScanView::Reading(views(v@)),
            Scan::Done(v) => ScanView::Done(views(v@)),
            Scan::Stopped(e) => ScanView::Stopped(e@),
        }
    }
}

impl ScanView {
    /// The scan once `event` has happened. While reading, a child is added
    /// to those read, the end completes the scan, and an interrupt or a
    /// failure stops it. A scan that is done or stopped stays as it is.
    pub open spec fn after(self, event: ScanEventView) -> ScanView {
        match self {
            ScanView::Reading(read) => match event {
                ScanEventView::Child(e) => ScanView::Reading(read.push(e)),
                ScanEventView::Interrupt => ScanView::Stopped(CdErrorView::Interrupted),
                ScanEventView::Failure(text) => ScanView::Stopped(CdErrorView::Io(text)),
                ScanEventView::End => ScanView::Done(read),
            },
            _ => self,
        }
    }

    /// The scan once all of `events` have happened, in their order.
    pub open spec fn after_all(self, events: Seq<ScanEventView>) -> ScanView
        decreases events.len(),
    {
        if events.len() == 0 {
            self
        } else {
            self.after(events[0]).after_all(events.drop_first())
        }
    }

    /// What the scan has to give: the children if it was not stopped, with
    /// events running out taken as the end; else why it stopped.
    pub open spec fn outcome(self) -> Result<Seq<DirEntryView>, CdErrorView> {
        match self {
            ScanView::Reading(read) => Ok(read),
            ScanView::Done(read) => Ok(read),
            ScanView::Stopped(e) => Err(e),
        }
    }
}

/// The view of what a scan has to give.
pub open spec fn listed(r: Result<Vec<DirEntry>, CdError>) -> Result<Seq<DirEntryView>, CdErrorView> {
    match r {
        Ok(v) => Ok(views(v@)),
        Err(e) => Err(e@),
    }
}

/// An interrupt while children are being read stops the scan, however many
/// children have been read and whatever follows: the outcome is the
/// interrupt, and no child is handed on.
pub proof fn lemma_interrupt_stops_scan(
    read: Seq<DirEntryView>,
    children: Seq<DirEntryView>,
    rest: Seq<ScanEventView>,
)
    ensures
        ScanView::Reading(read).after_all(
            children.map_values(|e: DirEntryView| ScanEventView::Child(e)) + seq![
                ScanEventView::Interrupt,
            ] + rest,
        ).outcome() == Err::<Seq<DirEntryView>, CdErrorView>(CdErrorView::Interrupted),
    decreases children.len(),
{
    let as_events = children.map_values(|e: DirEntryView| ScanEventView::Child(e));
    let events = as_events + seq![ScanEventView::Interrupt] + rest;
    if children.len() == 0 {
        assert(events[0] == ScanEventView::Interrupt);
        lemma_stopped_stays(CdErrorView::Interrupted, events.drop_first());
    } else {
        assert(events[0] == ScanEventView::Child(children[0]));
        let later = children.drop_first().map_values(|e: DirEntryView| ScanEventView::Child(e));
        assert(events.drop_first() =~= later + seq![ScanEventView::Interrupt] + rest);
        lemma_interrupt_stops_scan(read.push(children[0]), children.drop_first(), rest);
    }
}

/// A scan that has stopped stays stopped.
pub proof fn lemma_stopped_stays(e: CdErrorView, events: Seq<ScanEventView>)
    ensures
        ScanView::Stopped(e).after_all(events) == ScanView::Stopped(e),
    decreases events.len(),
{
    if events.len() > 0 {
        lemma_stopped_stays(e, events.drop_first());
    }
}

impl Scan {
    /// A scan that has read nothing yet.
    pub fn new() -> (scan: Scan)
        ensures
            scan@ == ScanView::Reading(Seq::empty()),
    {
        let scan = Scan::Reading(Vec::new());
        assert(scan@->Reading_0 =~= Seq::empty());
        scan
    }

    /// The scan once `event` has happened.
    pub fn step(self, event: ScanEvent) -> (next: Scan)
        ensures
            next@ == self@.after(event@),
    {
        match self {
            Scan::Reading(read) => match event {
                ScanEvent::Child(e) => {
                    let mut read = read;
                    read.push(e);
                    assert(views(read@) =~= self@->Reading_0.push(e@));
                    Scan::Reading(read)
                },
                ScanEvent::Interrupt => Scan::Stopped(CdError::Interrupted),
                ScanEvent::Failure(text) => Scan::Stopped(CdError::Io(text)),
                ScanEvent::End => Scan::Done(read),
            },
            Scan::Done(read) => Scan::Done(read),
            Scan::Stopped(e) => Scan::Stopped(e),
        }
    }

    /// Whether the scan wants more events.
    pub fn is_reading(&self) -> (r: bool)
        ensures
            r == (self@ is Reading),
    {
        match self {
            Scan::Reading(_) => true,
            _ => false,
        }
    }

    /// What the scan has to give.
    pub fn finish(self) -> (r: Result<Vec<DirEntry>, CdError>)
        ensures
            listed(r) == self@.outcome(),
    {
        match self {
            Scan::Reading(read) => Ok(read),
            Scan::Done(read) => Ok(read),
            Scan::Stopped(e) => Err(e),
        }
    }
}

/// The children of a directory, as the events `events` of reading it give
/// them: all that were read if the reading came to its end, the failure if
/// it failed, and the interrupt if the user stopped it.
pub fn ls(events: Vec<ScanEvent>) -> (r: Result<Vec<DirEntry>, CdError>)
    ensures
        listed(r) == ScanView::Reading(Seq::empty()).after_all(event_views(events@)).outcome(),
{
    let mut scan = Scan::new();
    let ghost all = event_views(events@);
    let ghost start = scan@;
    assert(all.skip(0) =~= all);
    for event in it: events
        invariant
            it.seq() == events@,
            all == event_views(events@),
            start.after_all(all) == scan@.after_all(all.skip(it.index() as int)),
    {
        let ghost tail = all.skip(it.index() as int);
        assert(tail[0] == event@);
        assert(tail.drop_first() =~= all.skip(it.index() + 1));
        scan = scan.step(event);
    }
    assert(all.skip(all.len() as int).len() == 0);
    scan.finish()
}

} // verus!
