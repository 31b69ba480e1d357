use hestia::errors::{AppError, AppErrorKind, DbError, WatcherError};
use hestia::hashing::{FileHash, FileId};
use hestia::library::CanonPath;
use hestia::watcher::{
    database_action, database_failure, event_needs_hash, file_row_from_event, route_event,
    CreateKind, DbAction, EventKind, EventRoute, FSEvent, FileEvent, FolderEvent, RemoveKind,
    WatchList,
};

fn paths(p: &[&str]) -> Vec<String> {
    p.iter().map(|s| s.to_string()).collect()
}

fn canon(p: &str) -> CanonPath {
    CanonPath::from_resolved(Some(p.to_string()))
}

#[test]
fn on_file_create_emit_correct_event() {
    let p = paths(&["/watched/test_file.txt"]);
    let kind = EventKind::Create(CreateKind::File);
    assert_eq!(route_event(&p, false, kind).unwrap(), EventRoute::File);
    assert!(event_needs_hash(false, kind));
    let e = FSEvent::from_file_event(FileEvent::new(kind, p, None));
    assert!(matches!(database_action(&e), Ok(DbAction::UpsertFile)));
}

#[test]
fn on_file_modify_emit_correct_event() {
    let p = paths(&["/watched/mod_test_file.txt"]);
    assert_eq!(route_event(&p, false, EventKind::Modify).unwrap(), EventRoute::File);
    let e = FSEvent::from_file_event(FileEvent::new(EventKind::Modify, p, None));
    assert!(matches!(database_action(&e), Ok(DbAction::UpsertFile)));
}

#[test]
fn on_file_delete_emit_correct_event() {
    let p = paths(&["/watched/del_test_file.txt"]);
    let kind = EventKind::Remove(RemoveKind::File);
    assert_eq!(route_event(&p, false, kind).unwrap(), EventRoute::File);
    assert!(!event_needs_hash(false, kind));
    let e = FSEvent::from_file_event(FileEvent::new(kind, p, None));
    match database_action(&e) {
        Ok(DbAction::DeleteFiles(v)) => assert_eq!(v, vec!["/watched/del_test_file.txt"]),
        _ => panic!("expected a delete"),
    }
}

#[test]
fn on_folder_create_emit_correct_event() {
    let p = paths(&["/watched/new_test_folder"]);
    let kind = EventKind::Create(CreateKind::Folder);
    assert_eq!(route_event(&p, false, kind).unwrap(), EventRoute::Folder);
    assert_eq!(route_event(&p, true, kind).unwrap(), EventRoute::Folder);
    assert!(event_needs_hash(true, kind));
    let e = FSEvent::from_folder_event(FolderEvent::new(kind, p, None));
    assert!(matches!(database_action(&e), Ok(DbAction::UpsertFolder)));
}

#[test]
fn on_folder_delete_emit_correct_event() {
    let p = paths(&["/watched/del_test_folder"]);
    let kind = EventKind::Remove(RemoveKind::Folder);
    assert_eq!(route_event(&p, false, kind).unwrap(), EventRoute::Folder);
    assert!(!event_needs_hash(true, kind));
    let e = FSEvent::from_folder_event(FolderEvent::new(kind, p, None));
    match database_action(&e) {
        Ok(DbAction::DeleteFolders(v)) => assert_eq!(v, vec!["/watched/del_test_folder"]),
        _ => panic!("expected a delete"),
    }
}

#[test]
fn on_rename_emit_correct_event() {
    let p = paths(&["/watched/rename_old.txt", "/watched/rename_new.txt"]);
    assert_eq!(route_event(&p, false, EventKind::Modify).unwrap(), EventRoute::File);
}

#[test]
fn on_folder_rename_emit_correct_event() {
    let p = paths(&["/watched/rename_old_folder", "/watched/rename_new_folder"]);
    assert_eq!(route_event(&p, true, EventKind::Modify).unwrap(), EventRoute::Folder);
}

#[test]
fn on_watch_non_existent_path_return_error() {
    let mut w = WatchList::new();
    let r = w.unwatch(&canon("/this_path_should_not_exist"));
    assert!(matches!(r, Err(WatcherError::PathNotFound)));
}

#[test]
fn accesses_are_ignored_except_on_directories() {
    let p = paths(&["/w/f"]);
    assert_eq!(route_event(&p, false, EventKind::Access).unwrap(), EventRoute::Ignore);
    assert_eq!(route_event(&p, true, EventKind::Access).unwrap(), EventRoute::Folder);
    let e = FSEvent::from_file_event(FileEvent::new(EventKind::Access, p, None));
    assert!(matches!(database_action(&e), Ok(DbAction::Ignore)));
}

#[test]
fn events_without_paths_are_refused() {
    match route_event(&vec![], false, EventKind::Modify) {
        Err(AppError::Categorized { kind, message, source }) => {
            assert_eq!(kind, AppErrorKind::FileError);
            assert_eq!(message, "Could not extract last paths. Were paths even provided?");
            assert!(source.is_none());
        }
        _ => panic!("expected an error"),
    }
}

#[test]
fn empty_events_cannot_be_stored() {
    let e = FSEvent { file_event: None, folder_event: None };
    match database_action(&e) {
        Err(AppError::Categorized { kind, message, source }) => {
            assert_eq!(kind, AppErrorKind::FileError);
            assert_eq!(message, "Failed to upsert file");
            assert_eq!(source.as_deref(), Some("Could not extract FolderEvent or FileEvent"));
        }
        _ => panic!("expected an error"),
    }
    match database_failure(DbError::QueryError) {
        AppError::Categorized { message, source, .. } => {
            assert_eq!(message, "Failed to upsert file");
            assert_eq!(source.as_deref(), Some("Database query failed!"));
        }
    }
}

#[test]
fn file_event_rows_use_the_last_path() {
    let content = blake3::hash(b"c");
    let identity = blake3::hash(b"i");
    let h = FileHash {
        content_hash: *content.as_bytes(),
        identity_hash: *identity.as_bytes(),
        file_id: FileId::Index { volume_serial_num: 3, file_index: 4 },
    };
    let ev = FileEvent::new(EventKind::Modify, paths(&["/w/old.txt", "/w/new.txt"]), Some(h));
    let row = file_row_from_event(&ev).unwrap();
    assert_eq!(row.path, "/w/new.txt");
    assert_eq!(row.name, "new.txt");
    assert_eq!(row.content_hash, format!("{:?}", content));
    assert_eq!(row.identity_hash, format!("{:?}", identity));
    let h2 = FileHash {
        content_hash: *content.as_bytes(),
        identity_hash: *identity.as_bytes(),
        file_id: FileId::Index { volume_serial_num: 3, file_index: 4 },
    };
    let empty = FileEvent::new(EventKind::Modify, vec![], Some(h2));
    assert!(matches!(file_row_from_event(&empty), Err(DbError::ConfigurationError)));
}

#[test]
fn watch_then_unwatch_restores_the_list() {
    let mut w = WatchList::new();
    assert!(w.watch(canon("/a")));
    assert!(w.watch(canon("/b")));
    assert!(!w.watch(canon("/a/")));
    assert_eq!(w.paths().unwrap().len(), 2);
    assert!(w.unwatch(&canon("/b")).is_ok());
    let left: Vec<String> = w.paths().unwrap().into_iter().map(|p| p.into_path()).collect();
    assert_eq!(left, vec!["/a".to_string()]);
    match w.unwatch(&canon("/b")) {
        Err(WatcherError::PathNotWatched { path }) => assert_eq!(path, "/b"),
        _ => panic!("expected an error"),
    }
    assert_eq!(w.paths().unwrap().len(), 1);
    assert!(w.unwatch(&canon("/a")).is_ok());
    assert_eq!(w.paths().unwrap().len(), 0);
    assert!(WatchList::new().paths().is_none());
}
