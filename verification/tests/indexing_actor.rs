use myrti::actor::indexing::{
    components_under, DirectoryWalk, DoTaskMsg, IndexingActor, IndexingNotice, MsgFromIndexing,
    MsgToIndexing, WalkAction, WalkEntry, MAX_QUEUE_SIZE, MAX_TASKS,
};
use myrti::config::{asset_dir_from_toml, PathFilter, TomlAssetDir};
use myrti::model::{AssetId, AssetRootDirId};

fn task(id: i64) -> MsgToIndexing {
    MsgToIndexing::DoTask(DoTaskMsg::IndexAssetRootDir { root_dir_id: AssetRootDirId(id) })
}

#[test]
fn requests_start_until_four_run_then_wait_then_drop() {
    let mut a = IndexingActor::new();
    for i in 0..MAX_TASKS as i64 {
        let step = a.on_control(task(i));
        assert_eq!(step.start, Some(AssetRootDirId(i)));
        assert_eq!(
            step.notices,
            vec![IndexingNotice::ActivityChange { running_tasks: i as usize, queued_tasks: 0 }]
        );
        assert_eq!(a.on_start_result(true), None);
    }
    for i in 0..MAX_QUEUE_SIZE as i64 {
        let step = a.on_control(task(100 + i));
        assert_eq!(step.start, None);
        assert_eq!(
            step.notices,
            vec![IndexingNotice::ActivityChange { running_tasks: 4, queued_tasks: i as usize + 1 }]
        );
    }
    let step = a.on_control(task(999));
    assert_eq!(step.notices, vec![IndexingNotice::DroppedMessage]);
    assert_eq!(a.queue.len(), MAX_QUEUE_SIZE);
}

#[test]
fn a_root_is_not_indexed_twice_and_failures_are_reported() {
    let mut a = IndexingActor::new();
    a.on_control(task(1));
    a.on_start_result(true);
    assert_eq!(a.on_control(task(1)).start, None);
    assert_eq!(a.on_control(task(2)).start, Some(AssetRootDirId(2)));
    assert_eq!(a.on_start_result(false), Some(AssetRootDirId(2)));
    assert_eq!(a.running_tasks, vec![AssetRootDirId(1)]);
}

#[test]
fn shutdown_waits_for_running_tasks() {
    let mut a = IndexingActor::new();
    a.on_control(task(1));
    a.on_start_result(true);
    let step = a.on_control(MsgToIndexing::Shutdown);
    assert!(!step.exit);
    assert_eq!(a.on_control(task(2)).start, None);
    let step = a.on_subtask_msg(
        AssetRootDirId(1),
        &MsgFromIndexing::IndexingCancelled { root_dir_id: AssetRootDirId(1) },
    );
    assert!(step.exit);
    assert!(!step.forward);
    assert_eq!(step.notices, vec![IndexingNotice::ActivityChange { running_tasks: 0, queued_tasks: 1 }]);
}

#[test]
fn other_run_messages_are_forwarded() {
    let mut a = IndexingActor::new();
    let step = a.on_subtask_msg(AssetRootDirId(1), &MsgFromIndexing::DroppedMessage);
    assert!(step.forward);
    assert!(step.notices.is_empty());
    let step = a.on_control(MsgToIndexing::Pause);
    assert!(!step.exit);
    assert!(!a.is_running);
    a.on_control(MsgToIndexing::Resume);
    assert!(a.is_running);
}

fn path(parts: &[&str]) -> Vec<String> {
    parts.iter().map(|p| p.to_string()).collect()
}

#[test]
fn directory_walk_reports_completed_directories() {
    let mut w = DirectoryWalk::new();
    assert_eq!(w.on_directory(path(&["/", "photos"])), None);
    w.on_new_asset();
    w.on_new_asset();
    assert_eq!(w.on_directory(path(&["/", "photos", "2024"])), None);
    w.on_new_asset();
    assert_eq!(
        w.on_directory(path(&["/", "videos"])),
        Some((path(&["/", "photos", "2024"]), 1))
    );
    assert_eq!(w.new_asset_count, 3);
    assert!(components_under(&path(&["/", "a", "bc"]), &path(&["/", "a"])));
    assert!(!components_under(&path(&["/", "a", "bc"]), &path(&["/", "a", "b"])));
}

fn file(p: &str) -> WalkEntry {
    WalkEntry::File { path: p.to_owned(), utf8: true }
}

fn directory(p: &str) -> WalkEntry {
    WalkEntry::Directory { path: p.to_owned(), utf8: true }
}

#[test]
fn walk_entries_follow_filter_cancel_and_directories() {
    let d = asset_dir_from_toml(TomlAssetDir {
        path: "/media".to_owned(),
        name: None,
        exclude_patterns: Some(vec!["**/boring*".to_owned()]),
        include_patterns: Some(vec!["**/boring/keep.jpg".to_owned()]),
    })
    .unwrap();
    let f = PathFilter::new(Some(&d)).unwrap();
    let none = PathFilter::new(None).unwrap();
    let mut w = DirectoryWalk::new();
    assert_eq!(w.on_entry(&f, directory("/media"), false), WalkAction::Entered);
    assert_eq!(w.stack[0].0, path(&["/", "media"]));
    assert_eq!(w.on_entry(&f, directory("/media/boring"), false), WalkAction::Skip);
    assert_eq!(w.on_entry(&f, file("/media/boring/keep.jpg"), false), WalkAction::IndexFile);
    assert_eq!(w.on_entry(&f, file("/media/a.jpg"), false), WalkAction::IndexFile);
    assert_eq!(w.on_entry(&none, directory("/media/boring"), false), WalkAction::Entered);
    assert_eq!(
        w.on_entry(&f, WalkEntry::File { path: "/media/\u{FFFD}.jpg".to_owned(), utf8: false }, false),
        WalkAction::Ignore
    );
    assert_eq!(
        w.on_entry(&f, WalkEntry::Error { path: Some("/media/x".to_owned()) }, false),
        WalkAction::ReportError { path: Some("/media/x".to_owned()) }
    );
    // A skipped entry is skipped even when cancelled; any other entry stops the walk.
    assert_eq!(w.on_entry(&f, file("/media/boring.jpg"), true), WalkAction::Skip);
    assert_eq!(w.on_entry(&f, file("/media/b.jpg"), true), WalkAction::Cancel);
    assert_eq!(
        w.on_entry(&f, directory("/other"), false),
        WalkAction::Completed { dir: path(&["/", "media", "boring"]), new_assets: 0 }
    );
    assert_eq!(w.stack.len(), 1);
}

#[test]
fn indexed_files_are_counted_and_reported() {
    let mut w = DirectoryWalk::new();
    let none = PathFilter::new(None).unwrap();
    assert_eq!(w.on_entry(&none, directory("/media"), false), WalkAction::Entered);
    assert!(w.on_indexed(AssetRootDirId(1), "/media/a.txt".to_owned(), Ok(None)).is_none());
    match w.on_indexed(AssetRootDirId(1), "/media/a.jpg".to_owned(), Ok(Some(AssetId(7)))) {
        Some(MsgFromIndexing::NewAsset(AssetId(7))) => {}
        other => panic!("unexpected {other:?}"),
    }
    match w.on_indexed(AssetRootDirId(1), "/media/b.jpg".to_owned(), Err(eyre::Report::msg("broken"))) {
        Some(MsgFromIndexing::IndexingError { root_dir_id: AssetRootDirId(1), path: Some(p), report }) => {
            assert_eq!(p, "/media/b.jpg");
            assert_eq!(report.to_string(), "broken");
        }
        other => panic!("unexpected {other:?}"),
    }
    assert_eq!(w.new_asset_count, 1);
    assert_eq!(w.stack[0].1, 1);
    w.stack[0].1 = u64::MAX;
    w.new_asset_count = u64::MAX;
    w.on_new_asset();
    assert_eq!((w.stack[0].1, w.new_asset_count), (u64::MAX, u64::MAX));
}
