use unison_editor::file_watcher::{watch_failure, ChangeKind, FileWatcherManager, WatchAction};

fn ready() -> FileWatcherManager {
    let mut w = FileWatcherManager::new();
    assert!(w.initialize());
    w.poller_started();
    w
}

fn paths(list: &[&str]) -> Vec<String> {
    list.iter().map(|s| s.to_string()).collect()
}

#[test]
fn initialize_creates_the_poller_once() {
    let mut w = FileWatcherManager::new();
    assert!(w.initialize());
    assert!(!w.initialize());
    assert!(!w.initialize());
}

#[test]
fn watch_without_poller_fails_but_remembers_the_file() {
    let mut w = FileWatcherManager::new();
    assert_eq!(w.watch_file("/a"), Err("File watcher not initialized".to_string()));
    assert_eq!(w.get_watched_files(), paths(&["/a"]));
    // Claimed but not started is not enough.
    w.initialize();
    assert_eq!(w.watch_file("/b"), Err("File watcher not initialized".to_string()));
    // A file that is remembered is not registered again.
    w.poller_started();
    assert_eq!(w.watch_file("/a"), Ok(WatchAction::Nothing));
}

#[test]
fn watch_registers_each_file_once() {
    let mut w = ready();
    assert_eq!(w.watch_file("/a"), Ok(WatchAction::Register));
    assert_eq!(w.watch_file("/b"), Ok(WatchAction::Register));
    assert_eq!(w.watch_file("/a"), Ok(WatchAction::Nothing));
    assert_eq!(w.get_watched_files(), paths(&["/a", "/b"]));
}

#[test]
fn unwatch_is_idempotent() {
    let mut w = ready();
    w.watch_file("/a").unwrap();
    w.watch_file("/b").unwrap();
    assert_eq!(w.unwatch_file("/a"), Ok(WatchAction::Unregister));
    assert_eq!(w.unwatch_file("/a"), Ok(WatchAction::Nothing));
    assert_eq!(w.unwatch_file("/never"), Ok(WatchAction::Nothing));
    assert_eq!(w.get_watched_files(), paths(&["/b"]));
    assert_eq!(w.on_event(ChangeKind::Modified, &paths(&["/a"]), 10).len(), 0);
    assert_eq!(w.on_event(ChangeKind::Removed, &paths(&["/a"]), 10).len(), 0);
}

#[test]
fn unwatch_without_poller_asks_nothing_of_it() {
    let mut w = FileWatcherManager::new();
    let _ = w.watch_file("/a");
    assert_eq!(w.unwatch_file("/a"), Ok(WatchAction::Nothing));
    assert!(w.get_watched_files().is_empty());
}

#[test]
fn changes_are_told_with_their_kind_and_time() {
    let mut w = ready();
    w.watch_file("/a").unwrap();
    let events = w.on_event(ChangeKind::Modified, &paths(&["/a"]), 1000);
    assert_eq!(events.len(), 1);
    assert_eq!(events[0].path, "/a");
    assert_eq!(events[0].change_type, "modified");
    assert_eq!(events[0].detected_at, 1000);
    let events = w.on_event(ChangeKind::Created, &paths(&["/a"]), 2000);
    assert_eq!(events[0].change_type, "modified");
    let events = w.on_event(ChangeKind::Removed, &paths(&["/a"]), 3000);
    assert_eq!(events[0].change_type, "deleted");
    assert_eq!(w.on_event(ChangeKind::Other, &paths(&["/a"]), 4000).len(), 0);
}

#[test]
fn only_watched_paths_are_told() {
    let mut w = ready();
    w.watch_file("/a").unwrap();
    w.watch_file("/c").unwrap();
    let events = w.on_event(ChangeKind::Modified, &paths(&["/a", "/b", "/c"]), 5);
    let told: Vec<&str> = events.iter().map(|e| e.path.as_str()).collect();
    assert_eq!(told, vec!["/a", "/c"]);
    assert_eq!(w.on_event(ChangeKind::Modified, &paths(&[]), 500).len(), 0);
}

#[test]
fn changes_within_a_hundred_milliseconds_are_dropped() {
    let mut w = ready();
    w.watch_file("/a").unwrap();
    assert_eq!(w.on_event(ChangeKind::Modified, &paths(&["/a"]), 1000).len(), 1);
    assert_eq!(w.on_event(ChangeKind::Modified, &paths(&["/a"]), 1000).len(), 0);
    assert_eq!(w.on_event(ChangeKind::Created, &paths(&["/a"]), 1099).len(), 0);
    // The dropped changes did not move the mark.
    assert_eq!(w.on_event(ChangeKind::Modified, &paths(&["/a"]), 1100).len(), 1);
    assert_eq!(w.on_event(ChangeKind::Modified, &paths(&["/a"]), 1199).len(), 0);
    assert_eq!(w.on_event(ChangeKind::Modified, &paths(&["/a"]), 1200).len(), 1);
}

#[test]
fn removals_are_never_dropped_and_set_the_mark() {
    let mut w = ready();
    w.watch_file("/a").unwrap();
    assert_eq!(w.on_event(ChangeKind::Modified, &paths(&["/a"]), 1000).len(), 1);
    assert_eq!(w.on_event(ChangeKind::Removed, &paths(&["/a"]), 1001).len(), 1);
    assert_eq!(w.on_event(ChangeKind::Removed, &paths(&["/a"]), 1002).len(), 1);
    assert_eq!(w.on_event(ChangeKind::Modified, &paths(&["/a"]), 1101).len(), 0);
    assert_eq!(w.on_event(ChangeKind::Modified, &paths(&["/a"]), 1102).len(), 1);
}

#[test]
fn same_path_twice_in_one_report_is_told_once() {
    let mut w = ready();
    w.watch_file("/a").unwrap();
    assert_eq!(w.on_event(ChangeKind::Modified, &paths(&["/a", "/a"]), 1000).len(), 1);
    assert_eq!(w.on_event(ChangeKind::Removed, &paths(&["/a", "/a"]), 5000).len(), 2);
}

#[test]
fn clock_that_runs_backwards_drops_nothing() {
    let mut w = ready();
    w.watch_file("/a").unwrap();
    assert_eq!(w.on_event(ChangeKind::Modified, &paths(&["/a"]), 1000).len(), 1);
    assert_eq!(w.on_event(ChangeKind::Modified, &paths(&["/a"]), 990).len(), 1);
    assert_eq!(w.on_event(ChangeKind::Modified, &paths(&["/a"]), u64::MAX).len(), 1);
}

#[test]
fn unwatching_forgets_the_mark() {
    let mut w = ready();
    w.watch_file("/a").unwrap();
    assert_eq!(w.on_event(ChangeKind::Modified, &paths(&["/a"]), 1000).len(), 1);
    w.unwatch_file("/a").unwrap();
    w.watch_file("/a").unwrap();
    assert_eq!(w.on_event(ChangeKind::Modified, &paths(&["/a"]), 1001).len(), 1);
}

#[test]
fn refusal_of_the_poller_is_worded() {
    assert_eq!(watch_failure("/a b", "No such file"), "Failed to watch file '/a b': No such file");
}

#[test]
fn no_path_is_listed_twice_whatever_is_asked() {
    let mut w = FileWatcherManager::new();
    let _ = w.watch_file("/a");
    let _ = w.watch_file("/a");
    w.initialize();
    w.poller_started();
    for path in ["/a", "/b", "/a", "/c", "/b"] {
        w.watch_file(path).unwrap();
    }
    w.on_event(ChangeKind::Modified, &paths(&["/a", "/a", "/b"]), 1_000);
    assert_eq!(w.get_watched_files(), paths(&["/a", "/b", "/c"]));
    assert_eq!(w.unwatch_file("/a"), Ok(WatchAction::Unregister));
    assert_eq!(w.get_watched_files(), paths(&["/b", "/c"]));
    assert_eq!(w.watch_file("/a"), Ok(WatchAction::Register));
    assert_eq!(w.get_watched_files(), paths(&["/b", "/c", "/a"]));
}
