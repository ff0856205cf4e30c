//! The state of the browser: the directory it shows, the listing, the
//! cursor it remembers for each directory it has left, and what each key
//! does to them.

use vstd::hash_map::StringHashMap;
use vstd::prelude::*;
use vstd::string::StringExecFns;

use crate::entry::{views, DirEntry, DirEntryView, EntryKind, SortField, SortMode};
use crate::listing::{accounts_recursively, lemma_first_named, DirListing, ListingView};
use crate::navigation::{command, help_text, help_text_of, Command, Key};
use crate::popup::{Popup, PopupView};
use crate::probe::FSType;
use crate::text::str_eq;

verus! {

/// How grave a message is.
#[derive(Debug, Clone, Copy, PartialEq, Eq, Structural)]
pub enum MessageKind {
    Error,
    Warning,
    Info,
}

/// A line of news for the user.
#[derive(Debug)]
pub struct Message {
    pub text: String,
    pub kind: MessageKind,
}

/// A `Message` with its text as a character sequence.
pub struct MessageView {
    pub text: Seq<char>,
    pub kind: MessageKind,
}

impl View for Message {
    type V = MessageView;

    open spec fn view(&self) -> MessageView {
        MessageView { text: self.text@, kind: self.kind }
    }
}

/// Why a directory could not be entered.
#[derive(Debug)]
pub enum CdError {
    /// Resolving or reading the directory failed; the text says how.
    Io(String),
    /// The user interrupted the reading.
    Interrupted,
}

/// A `CdError` with its text as a character sequence.
pub enum CdErrorView {
    Io(Seq<char>),
    Interrupted,
}

impl View for CdError {
    type V = CdErrorView;

    open spec fn view(&self) -> CdErrorView {
        match self {
            CdError::Io(text) => CdErrorView::Io(text@),
            CdError::Interrupted => CdErrorView::Interrupted,
        }
    }
}

impl CdErrorView {
    /// What the error says.
    pub open spec fn text(self) -> Seq<char> {
        match self {
            CdErrorView::Io(text) => text,
            CdErrorView::Interrupted => "Interrupted by user"@,
        }
    }
}

impl CdError {
    /// What the error says.
    pub fn text(&self) -> (text: String)
        ensures
            text@ == self@.text(),
    {
        match self {
            CdError::Io(text) => text.clone(),
            CdError::Interrupted => String::from_str("Interrupted by user"),
        }
    }
}

/// What reading a directory gave.
pub struct Visit {
    /// The resolved path of the directory.
    pub path: String,
    /// The kind of its filesystem.
    pub fs: Option<FSType>,
    /// The entry of the directory itself.
    pub entry_cwd: DirEntry,
    /// The entries of its children.
    pub entries: Vec<DirEntry>,
}

/// A `Visit` with its texts and entries as sequences.
pub struct VisitView {
    pub path: Seq<char>,
    pub fs: Option<FSType>,
    pub entry_cwd: DirEntryView,
    pub entries: Seq<DirEntryView>,
}

impl View for Visit {
    type V = VisitView;

    open spec fn view(&self) -> VisitView {
        VisitView {
            path: self.path@,
            fs: self.fs,
            entry_cwd: self.entry_cwd@,
            entries: views(self.entries@),
        }
    }
}

/// What is left for the caller to do once a key has been handled.
#[derive(Debug)]
pub enum Action {
    /// Nothing.
    Stay,
    /// Read the directory at this path, taken from the current directory,
    /// and hand the outcome to `App::cd`.
    ChangeDir(String),
    /// Read the current directory again and hand the outcome to `App::cd`.
    Refresh,
    /// Read the directory that the browser started in and hand the outcome
    /// to `App::cd`.
    Original,
}

/// An `Action` with its path as a character sequence.
pub enum ActionView {
    Stay,
    ChangeDir(Seq<char>),
    Refresh,
    Original,
}

impl View for Action {
    type V = ActionView;

    open spec fn view(&self) -> ActionView {
        match self {
            Action::Stay => ActionView::Stay,
            Action::ChangeDir(path) => ActionView::ChangeDir(path@),
            Action::Refresh => ActionView::Refresh,
            Action::Original => ActionView::Original,
        }
    }
}

/// The entry that the cursor was on when a directory was left.
struct Highlight {
    name: String,
    index: usize,
}

/// The cursors remembered, by directory: the name of the entry and its
/// display index.
pub type Highlights = Map<Seq<char>, (Seq<char>, usize)>;

/// The browser: the directory it shows, what it shows of it, and the
/// cursors it remembers.
pub struct App {
    pub should_exit: bool,
    pub cwd: String,
    pub dir_listing: DirListing,
    pub original_cwd: String,
    pub popup: Option<Popup>,
    pub show_owner: bool,
    pub show_ctime: bool,
    pub message: Option<Message>,
    /// Where the program is kept; shown below the help.
    pub repository: String,
    highlighted: StringHashMap<Highlight>,
}

/// An `App` with its texts as character sequences and its listing as a
/// view.
pub struct AppView {
    pub should_exit: bool,
    pub cwd: Seq<char>,
    pub dir_listing: ListingView,
    pub original_cwd: Seq<char>,
    pub popup: Option<PopupView>,
    pub show_owner: bool,
    pub show_ctime: bool,
    pub message: Option<MessageView>,
    pub repository: Seq<char>,
    pub highlighted: Highlights,
}

/// Whether `path` is that of the root directory, which has no parent.
pub open spec fn is_root_path(path: Seq<char>) -> bool {
    path == seq!['/']
}

/// The warning for a directory whose filesystem keeps no recursive totals.
pub open spec fn not_ceph_warning() -> MessageView {
    MessageView { text: "Warning: not a Ceph directory"@, kind: MessageKind::Warning }
}

/// The news that entering a directory failed with `e`.
pub open spec fn cd_error_message(e: CdErrorView) -> MessageView {
    MessageView { text: "Error changing directory: "@ + e.text(), kind: MessageKind::Error }
}

/// `listing` with the cursor put back where `memory` has it for the
/// directory `cwd`: on the first entry of the remembered name; if no entry
/// has that name, at the remembered index, or on the last entry if the
/// listing has become shorter; and on the first entry if nothing is
/// remembered for the directory.
pub open spec fn restored(memory: Highlights, cwd: Seq<char>, listing: ListingView) -> ListingView {
    if memory.contains_key(cwd) {
        listing.with_cursor_back(memory[cwd].0, memory[cwd].1)
    } else {
        listing.with_selected(Some(0usize))
    }
}

impl AppView {
    /// The state before any directory has been entered.
    pub open spec fn initial(repository: Seq<char>) -> AppView {
        AppView {
            should_exit: false,
            cwd: Seq::empty(),
            dir_listing: ListingView {
                dotdot: None,
                entries: Seq::empty(),
                selected: None,
                sort_mode: SortMode::Reversed(SortField::Size),
                stats: crate::listing::ListingStats {
                    max_rentries: 0,
                    total_rentries: 0,
                    max_size: 0,
                    total_size: 0,
                },
                fs: None,
            },
            original_cwd: Seq::empty(),
            popup: None,
            show_owner: false,
            show_ctime: false,
            message: None,
            repository,
            highlighted: Map::empty(),
        }
    }

    /// The cursors remembered once that of the current directory has been
    /// added: the entry under the cursor, by name and display index. A
    /// listing without a cursor on one of its entries adds nothing.
    pub open spec fn remembering(self) -> Highlights {
        match self.dir_listing.selected {
            Some(i) => if i < self.dir_listing.len() {
                self.highlighted.insert(self.cwd, (self.dir_listing.displayed()[i as int].name, i))
            } else {
                self.highlighted
            },
            None => self.highlighted,
        }
    }

    /// This state with the cursor of the current directory remembered.
    pub open spec fn remembered(self) -> AppView {
        AppView { highlighted: self.remembering(), ..self }
    }

    /// This state with `original_cwd` as the directory that the browser
    /// started in.
    pub open spec fn started_in(self, original_cwd: Seq<char>) -> AppView {
        AppView { original_cwd, ..self }
    }

    /// Whether `after` is this state once the directory that `visit` has
    /// read is entered.
    ///
    /// The cursor of the directory left is remembered. The new listing is
    /// that of the children read, sorted as the old one was, with the cursor
    /// put back where it was when the directory was last left. A directory
    /// whose filesystem keeps no recursive totals comes with a warning, any
    /// other clears the message.
    pub open spec fn enters(self, visit: VisitView, after: AppView) -> bool {
        &&& after == AppView {
            cwd: visit.path,
            dir_listing: after.dir_listing,
            message: if accounts_recursively(visit.fs) {
                None
            } else {
                Some(not_ceph_warning())
            },
            highlighted: self.remembering(),
            ..self
        }
        &&& after.dir_listing.with_selected(Some(0usize)).lists(
            is_root_path(visit.path),
            visit.fs,
            visit.entry_cwd,
            visit.entries,
            self.dir_listing.sort_mode,
        )
        &&& after.dir_listing == restored(
            self.remembering(),
            visit.path,
            after.dir_listing.with_selected(Some(0usize)),
        )
    }

    /// This state once entering a directory has failed with `e`: the
    /// directory and its listing stay as they are, and the message says what
    /// happened.
    pub open spec fn stays(self, e: CdErrorView) -> AppView {
        AppView { message: Some(cd_error_message(e)), highlighted: self.remembering(), ..self }
    }

    /// The mode that a request for `requested` sorts by: the field that the
    /// listing is sorted by turns its direction round, another field is
    /// taken as requested.
    pub open spec fn sort_choice(self, requested: SortMode) -> SortMode {
        if requested.spec_field() == self.dir_listing.sort_mode.spec_field() {
            self.dir_listing.sort_mode.spec_as_reversed()
        } else {
            requested
        }
    }

    /// This state with the cursor of the listing on `selected`.
    pub open spec fn with_cursor(self, selected: Option<usize>) -> AppView {
        AppView { dir_listing: self.dir_listing.with_selected(selected), ..self }
    }

    /// This state with its popup, if it has one, scrolled to `line`.
    pub open spec fn with_scroll(self, line: int) -> AppView {
        match self.popup {
            Some(p) => AppView { popup: Some(p.scrolled_to(line)), ..self },
            None => self,
        }
    }

    /// The directory that the cursor asks to enter: the entry under it, if
    /// that is a directory.
    pub open spec fn directory_under_cursor(self) -> ActionView {
        match self.dir_listing.selected {
            Some(i) => if i < self.dir_listing.len() && self.dir_listing.displayed()[i as int].kind
                == EntryKind::Dir {
                ActionView::ChangeDir(self.dir_listing.displayed()[i as int].name)
            } else {
                ActionView::Stay
            },
            None => ActionView::Stay,
        }
    }

    /// Whether `after` and `action` are what carrying out `cmd` in this
    /// state leads to.
    pub open spec fn performs(self, cmd: Command, after: AppView, action: ActionView) -> bool {
        match cmd {
            Command::ClosePopup => after == AppView { popup: None, ..self } && action
                == ActionView::Stay,
            Command::ScrollBy(delta) => after == (match self.popup {
                Some(p) => self.with_scroll(p.scroll + delta),
                None => self,
            }) && action == ActionView::Stay,
            Command::ScrollTo(line) => after == self.with_scroll(line as int) && action
                == ActionView::Stay,
            Command::Open => after == self && action == self.directory_under_cursor(),
            Command::Next(by) => after == self.with_cursor(Some(self.dir_listing.next_index(by)))
                && action == ActionView::Stay,
            Command::Prev(by) => after == self.with_cursor(Some(self.dir_listing.prev_index(by)))
                && action == ActionView::Stay,
            Command::First => after == self.with_cursor(Some(0usize)) && action == ActionView::Stay,
            Command::Last => after == self.with_cursor(
                if self.dir_listing.len() > 0 {
                    Some((self.dir_listing.len() - 1) as usize)
                } else {
                    self.dir_listing.selected
                },
            ) && action == ActionView::Stay,
            Command::Parent => after == self && action == ActionView::ChangeDir(seq!['.', '.']),
            Command::Quit => after == AppView { should_exit: true, ..self } && action
                == ActionView::Stay,
            Command::Sort(requested) => {
                &&& after == AppView { dir_listing: after.dir_listing, ..self }
                &&& self.dir_listing.sorted_to(after.dir_listing, self.sort_choice(requested))
                &&& action == ActionView::Stay
            },
            Command::Original => after == self && action == ActionView::Original,
            Command::ToggleOwner => after == AppView { show_owner: !self.show_owner, ..self }
                && action == ActionView::Stay,
            Command::ToggleCTime => after == AppView { show_ctime: !self.show_ctime, ..self }
                && action == ActionView::Stay,
            Command::Refresh => after == self && action == ActionView::Refresh,
            Command::Help => after == AppView {
                popup: Some(PopupView::showing("Help"@, self.repository, help_text_of())),
                ..self
            } && action == ActionView::Stay,
            Command::Nothing => after == self && action == ActionView::Stay,
        }
    }
}

impl View for App {
    type V = AppView;

    closed spec fn view(&self) -> AppView {
        AppView {
            should_exit: self.should_exit,
            cwd: self.cwd@,
            dir_listing: self.dir_listing@,
            original_cwd: self.original_cwd@,
            popup: match self.popup {
                Some(p) => Some(p@),
                None => None,
            },
            show_owner: self.show_owner,
            show_ctime: self.show_ctime,
            message: match self.message {
                Some(m) => Some(m@),
                None => None,
            },
            repository: self.repository@,
            highlighted: self.highlighted@.map_values(|h: Highlight| (h.name@, h.index)),
        }
    }
}

/// Entering a directory that cannot be read, or whose reading is
/// interrupted, leaves the directory shown and its listing exactly as they
/// were.
pub proof fn lemma_failed_cd_keeps_listing(before: AppView, e: CdErrorView)
    ensures
        before.stays(e).cwd == before.cwd,
        before.stays(e).dir_listing == before.dir_listing,
{
}

/// Coming back to a directory puts the cursor on the entry of the name that
/// it was on when the directory was left, wherever that entry now stands:
/// on the first entry of that name.
pub proof fn lemma_cursor_returns_by_name(
    memory: Highlights,
    cwd: Seq<char>,
    listing: ListingView,
    i: int,
)
    requires
        memory.contains_key(cwd),
        0 <= i < listing.len() <= usize::MAX,
        listing.displayed()[i].name == memory[cwd].0,
    ensures
        restored(memory, cwd, listing).selected matches Some(k) && k <= i
            && listing.displayed()[k as int].name == memory[cwd].0,
{
    assert(listing.displayed().len() == listing.len());
    lemma_first_named(listing.displayed(), memory[cwd].0);
}

/// Coming back to a directory in which no entry has the remembered name
/// puts the cursor at the remembered index, or on the last entry if the
/// listing has become shorter than that.
pub proof fn lemma_cursor_falls_back_to_index(
    memory: Highlights,
    cwd: Seq<char>,
    listing: ListingView,
)
    requires
        memory.contains_key(cwd),
        listing.len() <= usize::MAX,
        forall|i: int|
            0 <= i < listing.len() ==> (#[trigger] listing.displayed()[i]).name != memory[cwd].0,
    ensures
        restored(memory, cwd, listing).selected == Some(listing.clamped(memory[cwd].1)),
{
    assert(listing.displayed().len() == listing.len());
    lemma_first_named(listing.displayed(), memory[cwd].0);
}

impl App {
    /// Whether the listing is well-formed and the popup, if one is shown,
    /// is scrolled no further than its text allows.
    pub closed spec fn wf(&self) -> bool {
        &&& self.dir_listing.wf()
        &&& self.popup matches Some(p) ==> p@.in_range()
    }

    /// In a well-formed browser the popup, if one is shown, is scrolled no
    /// further than its text allows.
    pub proof fn lemma_wf(&self)
        requires
            self.wf(),
        ensures
            self@.popup matches Some(p) ==> p.in_range(),
    {
    }

    /// The directory shown.
    pub fn cwd(&self) -> (cwd: &str)
        ensures
            cwd@ == self@.cwd,
    {
        self.cwd.as_str()
    }

    /// The directory that the browser started in.
    pub fn original_cwd(&self) -> (cwd: &str)
        ensures
            cwd@ == self@.original_cwd,
    {
        self.original_cwd.as_str()
    }

    /// Where the program is kept.
    pub fn repository(&self) -> (repository: &str)
        ensures
            repository@ == self@.repository,
    {
        self.repository.as_str()
    }

    /// Whether the user has asked to leave.
    pub fn should_exit(&self) -> (r: bool)
        ensures
            r == self@.should_exit,
    {
        self.should_exit
    }

    /// Whether rows show the owner.
    pub fn show_owner(&self) -> (r: bool)
        ensures
            r == self@.show_owner,
    {
        self.show_owner
    }

    /// Whether rows show the change time.
    pub fn show_ctime(&self) -> (r: bool)
        ensures
            r == self@.show_ctime,
    {
        self.show_ctime
    }

    /// The listing of the directory shown.
    pub fn listing(&self) -> (listing: &DirListing)
        ensures
            listing@ == self@.dir_listing,
            self.wf() ==> listing.wf(),
    {
        &self.dir_listing
    }

    /// The popup, if one is shown.
    pub fn shown_popup(&self) -> (popup: Option<&Popup>)
        ensures
            match popup {
                Some(p) => self@.popup == Some(p@) && (self.wf() ==> p@.in_range()),
                None => self@.popup is None,
            },
    {
        self.popup.as_ref()
    }

    /// The message, if there is one.
    pub fn shown_message(&self) -> (message: Option<&Message>)
        ensures
            match message {
                Some(m) => self@.message == Some(m@),
                None => self@.message is None,
            },
    {
        self.message.as_ref()
    }

    /// The browser on the directory that `read` has read; `repository` is
    /// shown below the help. A directory that could not be read gives its
    /// error.
    pub fn new(read: Result<Visit, CdError>, repository: String) -> (made: Result<App, CdError>)
        requires
            read matches Ok(visit) ==> visit.entries.len() < usize::MAX,
        ensures
            match made {
                Ok(app) => {
                    &&& app.wf()
                    &&& read matches Ok(visit)
                    &&& AppView::initial(repository@).enters(
                        visit@,
                        app@.started_in(Seq::empty()),
                    )
                    &&& app@.original_cwd == visit@.path
                },
                Err(e) => read matches Err(cause) && e@ == cause@,
            },
    {
        let mut app = App {
            should_exit: false,
            cwd: String::new(),
            dir_listing: DirListing::default(),
            original_cwd: String::new(),
            popup: None,
            show_owner: false,
            show_ctime: false,
            message: None,
            repository,
            highlighted: StringHashMap::new(),
        };
        assert(app@.highlighted =~= Map::empty());
        assert(app@.dir_listing.entries =~= Seq::empty());
        assert(app@ == AppView::initial(repository@));
        match app.try_cd(read) {
            Ok(()) => {
                let ghost entered = app@;
                app.original_cwd = app.cwd.clone();
                assert(entered == app@.started_in(Seq::empty()));
                Ok(app)
            },
            Err(e) => Err(e),
        }
    }

    /// Takes in the outcome `read` of reading a directory: enters it, or
    /// stays where it was and says why.
    pub fn cd(&mut self, read: Result<Visit, CdError>)
        requires
            old(self).wf(),
            read matches Ok(visit) ==> visit.entries.len() < usize::MAX,
        ensures
            final(self).wf(),
            match read {
                Ok(visit) => old(self)@.enters(visit@, final(self)@),
                Err(e) => final(self)@ == old(self)@.stays(e@),
            },
    {
        match self.try_cd(read) {
            Ok(()) => {},
            Err(e) => {
                let mut text = String::from_str("Error changing directory: ");
                text.append(e.text().as_str());
                self.message(Some(Message { text, kind: MessageKind::Error }));
            },
        }
    }

    /// Takes in the outcome `read` of reading a directory: enters it, or
    /// hands back its error. Either way the cursor of the current directory
    /// is remembered first.
    pub fn try_cd(&mut self, read: Result<Visit, CdError>) -> (r: Result<(), CdError>)
        requires
            old(self).wf(),
            read matches Ok(visit) ==> visit.entries.len() < usize::MAX,
        ensures
            final(self).wf(),
            match read {
                Ok(visit) => r is Ok && old(self)@.enters(visit@, final(self)@),
                Err(cause) => {
                    &&& r matches Err(e)
                    &&& e@ == cause@
                    &&& final(self)@ == old(self)@.remembered()
                },
            },
    {
        // Record which entry was highlighted in case we navigate back
        self.save_selected();
        let visit = match read {
            Ok(visit) => visit,
            Err(e) => {
                return Err(e);
            },
        };
        proof {
            reveal_strlit("/");
            assert("/"@ =~= seq!['/']);
        }
        let is_root = str_eq(visit.path.as_str(), "/");
        self.dir_listing = DirListing::from(
            is_root,
            visit.fs,
            &visit.entry_cwd,
            visit.entries,
            self.dir_listing.sort_mode(),
        );
        let ghost listing = self.dir_listing@;
        self.cwd = visit.path;
        if !self.dir_listing.is_ceph() {
            self.message(
                Some(
                    Message {
                        text: String::from_str("Warning: not a Ceph directory"),
                        kind: MessageKind::Warning,
                    },
                ),
            );
        } else {
            self.message(None);
        }
        // Restore the highlighted entry if we have one
        self.restore_selected();
        assert(self@.dir_listing.with_selected(Some(0usize)) == listing);
        Ok(())
    }

    /// Shows `text` in a popup, or closes the popup if there is no text.
    pub fn popup(&mut self, title: Option<&str>, bottom_title: Option<&str>, text: Option<&str>)
        ensures
            old(self).wf() ==> final(self).wf(),
            final(self)@ == (AppView {
                popup: match text {
                    Some(t) => Some(
                        PopupView::showing(
                            match title {
                                Some(s) => s@,
                                None => Seq::empty(),
                            },
                            match bottom_title {
                                Some(s) => s@,
                                None => Seq::empty(),
                            },
                            t@,
                        ),
                    ),
                    None => None,
                },
                ..old(self)@
            }),
    {
        proof {
            reveal_strlit("");
            assert(""@ =~= Seq::<char>::empty());
        }
        self.popup = match text {
            Some(t) => Some(
                Popup::new(
                    match title {
                        Some(s) => s,
                        None => "",
                    },
                    match bottom_title {
                        Some(s) => s,
                        None => "",
                    },
                    t,
                ),
            ),
            None => None,
        };
    }

    /// Sets the message, or clears it.
    pub fn message(&mut self, message: Option<Message>)
        ensures
            old(self).wf() ==> final(self).wf(),
            final(self)@ == (AppView {
                message: match message {
                    Some(m) => Some(m@),
                    None => None,
                },
                ..old(self)@
            }),
    {
        self.message = message;
    }

    /// Shows the help: what each key does.
    pub fn help(&mut self)
        ensures
            old(self).wf() ==> final(self).wf(),
            final(self)@ == (AppView {
                popup: Some(PopupView::showing("Help"@, old(self)@.repository, help_text_of())),
                ..old(self)@
            }),
    {
        let text = help_text();
        let footer = self.repository.clone();
        self.popup(Some("Help"), Some(footer.as_str()), Some(text.as_str()));
    }

    /// Sorts by `sort_mode`, or, if the listing is sorted by that field
    /// already, turns its direction round.
    pub fn sort_or_reverse(&mut self, sort_mode: SortMode)
        requires
            old(self).wf(),
        ensures
            final(self).wf(),
            final(self)@ == (AppView { dir_listing: final(self)@.dir_listing, ..old(self)@ }),
            old(self)@.dir_listing.sorted_to(
                final(self)@.dir_listing,
                old(self)@.sort_choice(sort_mode),
            ),
    {
        let current = self.dir_listing.sort_mode();
        let chosen = if sort_mode.same_field(&current) {
            current.as_reversed()
        } else {
            sort_mode
        };
        self.dir_listing.sort(chosen);
    }

    /// Save the currently selected entry in the highlighted map.
    pub fn save_selected(&mut self)
        requires
            old(self).wf(),
        ensures
            final(self).wf(),
            final(self)@ == old(self)@.remembered(),
    {
        if let Some(selected) = self.dir_listing.selected() {
            if selected < self.dir_listing.len() {
                let name = self.dir_listing.get(selected).name.clone();
                self.highlighted.insert(self.cwd.clone(), Highlight { name, index: selected });
                assert(self@.highlighted =~= old(self)@.remembering());
            }
        }
    }

    /// Restore the previously highlighted entry if it exists.
    /// Try to select by name, and if that fails, select by index.
    pub fn restore_selected(&mut self)
        requires
            old(self).wf(),
        ensures
            final(self).wf(),
            final(self)@ == (AppView {
                dir_listing: restored(
                    old(self)@.highlighted,
                    old(self)@.cwd,
                    old(self)@.dir_listing,
                ),
                ..old(self)@
            }),
    {
        match self.highlighted.get(self.cwd.as_str()) {
            Some(kept) => {
                let found = self.dir_listing.select_by_name(kept.name.as_str());
                if found.is_none() {
                    self.dir_listing.saturating_select(kept.index);
                }
            },
            None => {
                self.dir_listing.select_first();
            },
        }
    }

    /// Carries out `cmd` and says what is left for the caller to do.
    pub fn perform(&mut self, cmd: Command) -> (action: Action)
        requires
            old(self).wf(),
        ensures
            final(self).wf(),
            old(self)@.performs(cmd, final(self)@, action@),
    {
        match cmd {
            Command::ClosePopup => {
                self.popup(None, None, None);
            },
            Command::ScrollBy(delta) => {
                if let Some(mut p) = self.popup.take() {
                    p.scroll_by(delta);
                    self.popup = Some(p);
                }
            },
            Command::ScrollTo(line) => {
                if let Some(mut p) = self.popup.take() {
                    p.scroll_to(line);
                    self.popup = Some(p);
                }
            },
            Command::Open => {
                if let Some(selected) = self.dir_listing.selected() {
                    if selected < self.dir_listing.len() {
                        let entry = self.dir_listing.get(selected);
                        if entry.kind == EntryKind::Dir {
                            return Action::ChangeDir(entry.name.clone());
                        }
                    }
                }
            },
            Command::Next(by) => {
                self.dir_listing.select_next(by);
            },
            Command::Prev(by) => {
                self.dir_listing.select_prev(by);
            },
            Command::First => {
                self.dir_listing.select_first();
            },
            Command::Last => {
                self.dir_listing.select_last();
            },
            Command::Parent => {
                proof {
                    reveal_strlit("..");
                    assert(".."@ =~= seq!['.', '.']);
                }
                return Action::ChangeDir(String::from_str(".."));
            },
            Command::Quit => {
                self.should_exit = true;
            },
            Command::Sort(requested) => {
                self.sort_or_reverse(requested);
            },
            Command::Original => {
                return Action::Original;
            },
            Command::ToggleOwner => {
                self.show_owner = !self.show_owner;
            },
            Command::ToggleCTime => {
                self.show_ctime = !self.show_ctime;
            },
            Command::Refresh => {
                return Action::Refresh;
            },
            Command::Help => {
                self.help();
            },
            Command::Nothing => {},
        }
        Action::Stay
    }

    /// Handles the key `key`: carries out what it stands for, and says what
    /// is left for the caller to do. While a popup is shown the keys scroll
    /// or close it.
    pub fn handle_key(&mut self, key: Key) -> (action: Action)
        requires
            old(self).wf(),
        ensures
            final(self).wf(),
            old(self)@.performs(
                crate::navigation::command_for(old(self)@.popup is Some, key),
                final(self)@,
                action@,
            ),
    {
        let cmd = command(self.popup.is_some(), key);
        self.perform(cmd)
    }
}

} // verus!
