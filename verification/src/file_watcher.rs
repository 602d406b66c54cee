//! Which files are watched for changes from outside, and which of the
//! changes that the poller reports are passed on to the editor.
//!
//! The poller itself belongs to the owner of a [`FileWatcherManager`]; the
//! manager says when to register and unregister a path with it and turns its
//! reports into [`FileChangeEvent`]s.
//!
//! A path is a text here, and two paths are the same where their texts are.
//! How a platform spells one path in several ways is its owner's knowledge:
//! the owner hands in each path in one spelling, that of its components.

use crate::text::str_eq;
use vstd::prelude::*;

verus! {

/// A change to a watched file, as told to the editor.
#[derive(Debug, Clone)]
pub struct FileChangeEvent {
    pub path: String,
    /// `modified` or `deleted`.
    pub change_type: String,
    /// When the change was detected, in milliseconds since the epoch.
    pub detected_at: u64,
}

/// A change as plain values.
pub struct ChangeView {
    pub path: Seq<char>,
    pub change_type: Seq<char>,
    pub detected_at: u64,
}

impl View for FileChangeEvent {
    type V = ChangeView;

    open spec fn view(&self) -> ChangeView {
        ChangeView {
            path: self.path@,
            change_type: self.change_type@,
            detected_at: self.detected_at,
        }
    }
}

/// The changes that a sequence of events tells.
pub open spec fn changes_view(v: Seq<FileChangeEvent>) -> Seq<ChangeView> {
    Seq::new(v.len(), |i: int| v[i]@)
}

/// What kind of change the poller reports.
#[derive(Debug, Clone, Copy, PartialEq, Eq, Structural)]
pub enum ChangeKind {
    Created,
    Modified,
    Removed,
    /// Anything else, such as an access.
    Other,
}

/// What to do with the poller after a call.
#[derive(Debug, Clone, Copy, PartialEq, Eq, Structural)]
pub enum WatchAction {
    /// Register the path with the poller.
    Register,
    /// Take the path off the poller.
    Unregister,
    Nothing,
}

/// A watched file and when a change to it was last passed on.
#[derive(Debug, Clone)]
pub struct WatchedFile {
    pub path: String,
    pub last_event: Option<u64>,
}

/// A watched file as plain values.
pub struct WatchedView {
    pub path: Seq<char>,
    pub last_event: Option<u64>,
}

impl View for WatchedFile {
    type V = WatchedView;

    open spec fn view(&self) -> WatchedView {
        WatchedView { path: self.path@, last_event: self.last_event }
    }
}

/// The watched files as plain values.
pub open spec fn files_view(v: Seq<WatchedFile>) -> Seq<WatchedView> {
    Seq::new(v.len(), |i: int| v[i]@)
}

/// A watcher as plain values.
pub struct WatcherView {
    /// The watched files, in the order in which they were added.
    pub files: Seq<WatchedView>,
    /// `initialize` has been called.
    pub claimed: bool,
    /// The poller exists.
    pub ready: bool,
}

/// The first index at or after `i` of the file with the given path.
pub open spec fn position(files: Seq<WatchedView>, path: Seq<char>, i: int) -> Option<int>
    decreases files.len() - i,
{
    if i < 0 || i >= files.len() {
        None
    } else if files[i].path == path {
        Some(i)
    } else {
        position(files, path, i + 1)
    }
}

/// The path is watched.
pub open spec fn watches(files: Seq<WatchedView>, path: Seq<char>) -> bool {
    position(files, path, 0) is Some
}

/// No path is watched twice.
pub open spec fn distinct_paths(files: Seq<WatchedView>) -> bool {
    forall|i: int, j: int| 0 <= i < j < files.len() ==> files[i].path != files[j].path
}

/// What `position` answers is the first place at or after `i` where the path
/// stands.
pub proof fn lemma_position(files: Seq<WatchedView>, path: Seq<char>, i: int)
    requires
        0 <= i,
    ensures
        match position(files, path, i) {
            Some(k) => i <= k < files.len() && files[k].path == path && forall|j: int|
                i <= j < k ==> files[j].path != path,
            None => forall|j: int| i <= j < files.len() ==> files[j].path != path,
        },
    decreases files.len() - i,
{
    if i < files.len() && files[i].path != path {
        lemma_position(files, path, i + 1);
    }
}

/// The watcher after a path has been asked to be watched: a path that is
/// watched already changes nothing.
pub open spec fn after_watch(s: WatcherView, path: Seq<char>) -> WatcherView {
    if watches(s.files, path) {
        s
    } else {
        WatcherView { files: s.files.push(WatchedView { path: path, last_event: None }), ..s }
    }
}

/// What is said of a path that is to be watched before the poller exists.
pub open spec fn not_initialized() -> Seq<char> {
    "File watcher not initialized"@
}

/// What watching a path leads to: nothing for one that is watched already,
/// registering it where the poller exists, and an error where it does not.
pub open spec fn watch_outcome(s: WatcherView, path: Seq<char>) -> Result<WatchAction, Seq<char>> {
    if watches(s.files, path) {
        Ok(WatchAction::Nothing)
    } else if s.ready {
        Ok(WatchAction::Register)
    } else {
        Err(not_initialized())
    }
}

/// The watcher after a path has been asked not to be watched any more.
pub open spec fn after_unwatch(s: WatcherView, path: Seq<char>) -> WatcherView {
    match position(s.files, path, 0) {
        Some(i) => WatcherView { files: s.files.remove(i), ..s },
        None => s,
    }
}

/// What unwatching a path asks of the poller: to let go of a path that was
/// watched, where the poller exists.
pub open spec fn unwatch_action(s: WatcherView, path: Seq<char>) -> WatchAction {
    if watches(s.files, path) && s.ready {
        WatchAction::Unregister
    } else {
        WatchAction::Nothing
    }
}

/// How a kind of change is told to the editor; kinds that are not told have
/// no name.
pub open spec fn change_type(kind: ChangeKind) -> Option<Seq<char>> {
    match kind {
        ChangeKind::Removed => Some("deleted"@),
        ChangeKind::Modified => Some("modified"@),
        ChangeKind::Created => Some("modified"@),
        ChangeKind::Other => None,
    }
}

/// A change comes too soon after the last one passed on for the same file:
/// less than 100 milliseconds later.
pub open spec fn too_soon(last: Option<u64>, now: u64) -> bool {
    match last {
        Some(t) => t <= now && now - t < 100,
        None => false,
    }
}

/// The files and the events told so far.
pub struct ReportView {
    pub files: Seq<WatchedView>,
    pub events: Seq<ChangeView>,
}

/// What a report about one path adds. A path that is not watched is left
/// out. A change other than a removal is dropped when it comes too soon
/// after the last one; a removal is always told. A change that is told marks
/// the file with its time.
pub open spec fn report_path(r: ReportView, kind: ChangeKind, path: Seq<char>, now: u64)
    -> ReportView {
    match change_type(kind) {
        None => r,
        Some(name) => match position(r.files, path, 0) {
            None => r,
            Some(i) => if kind != ChangeKind::Removed && too_soon(r.files[i].last_event, now) {
                r
            } else {
                ReportView {
                    files: r.files.update(
                        i,
                        WatchedView { path: r.files[i].path, last_event: Some(now) },
                    ),
                    events: r.events.push(
                        ChangeView { path: path, change_type: name, detected_at: now },
                    ),
                }
            },
        },
    }
}

/// What a report about the first `n` of the paths adds, path after path.
pub open spec fn report_paths(
    files: Seq<WatchedView>,
    kind: ChangeKind,
    paths: Seq<Seq<char>>,
    now: u64,
    n: int,
) -> ReportView
    decreases n,
{
    if n <= 0 || n > paths.len() {
        ReportView { files: files, events: Seq::empty() }
    } else {
        report_path(report_paths(files, kind, paths, now, n - 1), kind, paths[n - 1], now)
    }
}

/// What is said when the poller refuses a path.
pub open spec fn watch_failure_text(path: Seq<char>, error: Seq<char>) -> Seq<char> {
    "Failed to watch file '"@ + path + "': "@ + error
}

/// What is said when the poller refuses a path.
pub fn watch_failure(path: &str, error: &str) -> (r: String)
    ensures
        r@ == watch_failure_text(path@, error@),
{
    let mut out: Vec<char> = Vec::new();
    crate::text::append_str(&mut out, "Failed to watch file '");
    crate::text::append_str(&mut out, path);
    crate::text::append_str(&mut out, "': ");
    crate::text::append_str(&mut out, error);
    assert(out@ =~= watch_failure_text(path@, error@));
    crate::text::string_of(&out)
}

/// The set of watched files and what was last told about each. A manager
/// that was made by [`FileWatcherManager::new`] and changed by its methods
/// lists no path twice.
#[derive(Debug)]
pub struct FileWatcherManager {
    files: Vec<WatchedFile>,
    claimed: bool,
    ready: bool,
}

impl View for FileWatcherManager {
    type V = WatcherView;

    closed spec fn view(&self) -> WatcherView {
        WatcherView { files: files_view(self.files@), claimed: self.claimed, ready: self.ready }
    }
}

/// The outcome of a call with its error as plain text.
pub open spec fn action_result(r: Result<WatchAction, String>) -> Result<WatchAction, Seq<char>> {
    match r {
        Ok(a) => Ok(a),
        Err(e) => Err(e@),
    }
}

impl Default for FileWatcherManager {
    fn default() -> (r: Self)
        ensures
            r@ == (WatcherView { files: Seq::empty(), claimed: false, ready: false }),
    {
        FileWatcherManager::new()
    }
}

impl FileWatcherManager {
    /// A watcher that watches nothing and has no poller yet.
    pub fn new() -> (r: FileWatcherManager)
        ensures
            r@ == (WatcherView { files: Seq::empty(), claimed: false, ready: false }),
            distinct_paths(r@.files),
    {
        let r = FileWatcherManager { files: Vec::new(), claimed: false, ready: false };
        assert(files_view(r.files@) =~= Seq::<WatchedView>::empty());
        r
    }

    /// Claims the watcher. The result says whether the poller is to be
    /// created now: `true` the first time, `false` ever after.
    pub fn initialize(&mut self) -> (create: bool)
        ensures
            create == !old(self)@.claimed,
            final(self)@ == (WatcherView { claimed: true, ..old(self)@ }),
    {
        let first = !self.claimed;
        self.claimed = true;
        first
    }

    /// The poller has been created.
    pub fn poller_started(&mut self)
        ensures
            final(self)@ == (WatcherView { ready: true, ..old(self)@ }),
    {
        self.ready = true;
    }

    fn find(&self, path: &str) -> (r: Option<usize>)
        ensures
            crate::text::index_of(r) == position(self@.files, path@, 0),
    {
        let mut i: usize = 0;
        while i < self.files.len()
            invariant
                i <= self.files.len(),
                position(self@.files, path@, 0) == position(self@.files, path@, i as int),
            decreases self.files.len() - i,
        {
            if str_eq(self.files[i].path.as_str(), path) {
                return Some(i);
            }
            i += 1;
        }
        None
    }

    /// Starts watching a file. Watching a file that is watched already does
    /// nothing.
    pub fn watch_file(&mut self, path: &str) -> (r: Result<WatchAction, String>)
        ensures
            action_result(r) == watch_outcome(old(self)@, path@),
            final(self)@ == after_watch(old(self)@, path@),
            watches(final(self)@.files, path@),
            distinct_paths(old(self)@.files) ==> distinct_paths(final(self)@.files),
    {
        proof {
            lemma_watched_after_watch(self@, path@);
            if distinct_paths(self@.files) {
                lemma_watch_keeps_distinct(self@, path@);
            }
        }
        match self.find(path) {
            Some(_) => Ok(WatchAction::Nothing),
            None => {
                let ghost before = self.files@;
                let file = WatchedFile { path: path.to_owned(), last_event: None };
                self.files.push(file);
                assert(files_view(before.push(file)) =~= files_view(before).push(file@));
                if self.ready {
                    Ok(WatchAction::Register)
                } else {
                    Err("File watcher not initialized".to_owned())
                }
            },
        }
    }

    /// Stops watching a file. A file that is not watched is no error: the
    /// call succeeds and changes nothing.
    pub fn unwatch_file(&mut self, path: &str) -> (r: Result<WatchAction, String>)
        ensures
            r == Ok::<WatchAction, String>(unwatch_action(old(self)@, path@)),
            final(self)@ == after_unwatch(old(self)@, path@),
            distinct_paths(old(self)@.files) ==> distinct_paths(final(self)@.files) && !watches(
                final(self)@.files,
                path@,
            ),
    {
        proof {
            if distinct_paths(self@.files) {
                lemma_unwatch_is_idempotent(self@, path@);
                lemma_unwatch_keeps_distinct(self@, path@);
            }
        }
        match self.find(path) {
            None => Ok(WatchAction::Nothing),
            Some(i) => {
                proof {
                    lemma_position(self@.files, path@, 0);
                }
                let ghost before = self.files@;
                let _ = self.files.remove(i);
                assert(files_view(before.remove(i as int)) =~= files_view(before).remove(
                    i as int,
                ));
                if self.ready {
                    Ok(WatchAction::Unregister)
                } else {
                    Ok(WatchAction::Nothing)
                }
            },
        }
    }

    /// The watched files, in the order in which they were added.
    pub fn get_watched_files(&self) -> (r: Vec<String>)
        ensures
            r.len() == self@.files.len(),
            forall|i: int| 0 <= i < r.len() ==> (#[trigger] r@[i])@ == self@.files[i].path,
    {
        let mut out: Vec<String> = Vec::new();
        let mut i: usize = 0;
        while i < self.files.len()
            invariant
                i <= self.files.len(),
                out.len() == i,
                forall|k: int| 0 <= k < i ==> (#[trigger] out@[k])@ == self@.files[k].path,
            decreases self.files.len() - i,
        {
            out.push(self.files[i].path.clone());
            i += 1;
        }
        out
    }

    fn report_one(&mut self, kind: ChangeKind, path: &str, now_ms: u64, events: &mut Vec<
        FileChangeEvent,
    >)
        ensures
            ({
                let before = ReportView {
                    files: old(self)@.files,
                    events: changes_view(old(events)@),
                };
                let after = report_path(before, kind, path@, now_ms);
                &&& final(self)@ == (WatcherView { files: after.files, ..old(self)@ })
                &&& changes_view(final(events)@) == after.events
            }),
    {
        let name = match kind {
            ChangeKind::Removed => "deleted",
            ChangeKind::Modified => "modified",
            ChangeKind::Created => "modified",
            ChangeKind::Other => { return ; },
        };
        match self.find(path) {
            None => {},
            Some(i) => {
                proof {
                    lemma_position(self@.files, path@, 0);
                }
                let soon = match self.files[i].last_event {
                    Some(t) => t <= now_ms && now_ms - t < 100,
                    None => false,
                };
                if kind != ChangeKind::Removed && soon {
                } else {
                    let ghost before = self.files@;
                    let marked = WatchedFile {
                        path: self.files[i].path.clone(),
                        last_event: Some(now_ms),
                    };
                    self.files.set(i, marked);
                    assert(files_view(before.update(i as int, marked)) =~= files_view(
                        before,
                    ).update(i as int, marked@));
                    let event = FileChangeEvent {
                        path: path.to_owned(),
                        change_type: name.to_owned(),
                        detected_at: now_ms,
                    };
                    let ghost told = events@;
                    events.push(event);
                    assert(changes_view(told.push(event)) =~= changes_view(told).push(event@));
                }
            },
        }
    }

    /// Takes a report of the poller: a kind of change, the paths it is about
    /// and the time, and gives the events to tell the editor, in order.
    pub fn on_event(&mut self, kind: ChangeKind, paths: &Vec<String>, now_ms: u64) -> (r: Vec<
        FileChangeEvent,
    >)
        ensures
            ({
                let after = report_paths(
                    old(self)@.files,
                    kind,
                    paths.deep_view(),
                    now_ms,
                    paths.len() as int,
                );
                &&& final(self)@ == (WatcherView { files: after.files, ..old(self)@ })
                &&& changes_view(r@) == after.events
            }),
            distinct_paths(old(self)@.files) ==> distinct_paths(final(self)@.files),
    {
        proof {
            if distinct_paths(self@.files) {
                lemma_reports_keep_distinct(
                    self@.files,
                    kind,
                    paths.deep_view(),
                    now_ms,
                    paths.len() as int,
                );
            }
        }
        let mut events: Vec<FileChangeEvent> = Vec::new();
        assert(changes_view(events@) =~= Seq::<ChangeView>::empty());
        let mut i: usize = 0;
        while i < paths.len()
            invariant
                i <= paths.len(),
                ({
                    let so_far = report_paths(
                        old(self)@.files,
                        kind,
                        paths.deep_view(),
                        now_ms,
                        i as int,
                    );
                    &&& self@ == (WatcherView { files: so_far.files, ..old(self)@ })
                    &&& changes_view(events@) == so_far.events
                }),
            decreases paths.len() - i,
        {
            assert(paths.deep_view()[i as int] == paths@[i as int]@);
            self.report_one(kind, paths[i].as_str(), now_ms, &mut events);
            i += 1;
        }
        events
    }
}

/// Unwatching a path never makes a path watched twice.
pub proof fn lemma_unwatch_keeps_distinct(s: WatcherView, path: Seq<char>)
    requires
        distinct_paths(s.files),
    ensures
        distinct_paths(after_unwatch(s, path).files),
{
    lemma_position(s.files, path, 0);
    let after = after_unwatch(s, path).files;
    match position(s.files, path, 0) {
        Some(k) => {
            assert forall|i: int, j: int| 0 <= i < j < after.len() implies after[i].path
                != after[j].path by {
                let a = if i < k {
                    i
                } else {
                    i + 1
                };
                let b = if j < k {
                    j
                } else {
                    j + 1
                };
                assert(after[i] == s.files[a]);
                assert(after[j] == s.files[b]);
            }
        },
        None => {},
    }
}

/// A report about a path changes no path, so it never makes a path watched
/// twice.
pub proof fn lemma_report_keeps_paths(r: ReportView, kind: ChangeKind, path: Seq<char>, now: u64)
    ensures
        report_path(r, kind, path, now).files.len() == r.files.len(),
        forall|i: int|
            0 <= i < r.files.len() ==> (#[trigger] report_path(r, kind, path, now).files[i]).path
                == r.files[i].path,
        distinct_paths(r.files) ==> distinct_paths(report_path(r, kind, path, now).files),
{
    lemma_position(r.files, path, 0);
    let after = report_path(r, kind, path, now).files;
    assert forall|i: int| 0 <= i < r.files.len() implies (#[trigger] after[i]).path
        == r.files[i].path by {}
    if distinct_paths(r.files) {
        assert forall|i: int, j: int| 0 <= i < j < after.len() implies after[i].path
            != after[j].path by {
            assert(after[i].path == r.files[i].path);
            assert(after[j].path == r.files[j].path);
        }
    }
}

/// Reports about any number of paths never make a path watched twice.
pub proof fn lemma_reports_keep_distinct(
    files: Seq<WatchedView>,
    kind: ChangeKind,
    paths: Seq<Seq<char>>,
    now: u64,
    n: int,
)
    requires
        distinct_paths(files),
    ensures
        distinct_paths(report_paths(files, kind, paths, now, n).files),
    decreases n,
{
    if 0 < n <= paths.len() {
        lemma_reports_keep_distinct(files, kind, paths, now, n - 1);
        lemma_report_keeps_paths(
            report_paths(files, kind, paths, now, n - 1),
            kind,
            paths[n - 1],
            now,
        );
    }
}

/// A path is watched once it has been asked to be watched.
pub proof fn lemma_watched_after_watch(s: WatcherView, path: Seq<char>)
    ensures
        watches(after_watch(s, path).files, path),
{
    let after = after_watch(s, path).files;
    lemma_position(s.files, path, 0);
    lemma_position(after, path, 0);
    if !watches(s.files, path) {
        assert(after[s.files.len() as int].path == path);
    }
}

/// Watching a path never makes a path watched twice.
pub proof fn lemma_watch_keeps_distinct(s: WatcherView, path: Seq<char>)
    requires
        distinct_paths(s.files),
    ensures
        distinct_paths(after_watch(s, path).files),
        watches(after_watch(s, path).files, path),
{
    lemma_position(s.files, path, 0);
    let after = after_watch(s, path).files;
    lemma_position(after, path, 0);
    if !watches(s.files, path) {
        assert(after[s.files.len() as int].path == path);
    }
}

/// Unwatching a path that is not watched succeeds, asks nothing of the
/// poller, changes nothing, and no report about the path is told.
pub proof fn lemma_unwatch_unwatched(s: WatcherView, path: Seq<char>, kind: ChangeKind, now: u64)
    requires
        !watches(s.files, path),
    ensures
        after_unwatch(s, path) == s,
        unwatch_action(s, path) == WatchAction::Nothing,
        report_paths(after_unwatch(s, path).files, kind, seq![path], now, 1).events.len() == 0,
{
    lemma_unwatched_is_silent(s.files, kind, path, now);
}

/// After a path has been unwatched it is not watched, and unwatching it
/// once more succeeds, asks nothing of the poller and changes nothing.
pub proof fn lemma_unwatch_is_idempotent(s: WatcherView, path: Seq<char>)
    requires
        distinct_paths(s.files),
    ensures
        !watches(after_unwatch(s, path).files, path),
        after_unwatch(after_unwatch(s, path), path) == after_unwatch(s, path),
        unwatch_action(after_unwatch(s, path), path) == WatchAction::Nothing,
{
    lemma_position(s.files, path, 0);
    let after = after_unwatch(s, path).files;
    lemma_position(after, path, 0);
    match position(s.files, path, 0) {
        Some(i) => {
            assert forall|j: int| 0 <= j < after.len() implies after[j].path != path by {
                if j < i {
                    assert(after[j] == s.files[j]);
                } else {
                    assert(after[j] == s.files[j + 1]);
                }
            }
        },
        None => {},
    }
}

/// A file that is not watched is reported to nobody: whatever the poller
/// says about it, no event is told and nothing changes.
pub proof fn lemma_unwatched_is_silent(
    files: Seq<WatchedView>,
    kind: ChangeKind,
    path: Seq<char>,
    now: u64,
)
    requires
        !watches(files, path),
    ensures
        report_paths(files, kind, seq![path], now, 1) == (ReportView {
            files: files,
            events: Seq::empty(),
        }),
{
    reveal_with_fuel(report_paths, 2);
}

} // verus!
