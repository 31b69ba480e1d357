use hestia::scanner::EntryAction;
use hestia::scanner::count_folder_upserts;
use std::collections::BTreeMap;
use hestia::hashing::{FileHash, FileId};
use hestia::report::FileRecord;
use hestia::scanner::{
    calculate_sync_operations, count_upserts, create_file_info, directory_state, files_in_directory, plan_batches,
    BatchAction, FileInfo, FileMetadata, ScanConfig, SyncOperation, SyncReport,
    UpsertFileBatchReport,
};
use hestia::errors::DbError;

fn info(path: &str, content: &str, identity: &str) -> FileInfo {
    FileInfo {
        path: path.to_string(),
        name: path.rsplit('/').next().unwrap().to_string(),
        content_hash: content.to_string(),
        identity_hash: identity.to_string(),
        file_type_name: "text".to_string(),
        file_system_id: None,
    }
}

fn meta(id: i32, path: &str, content: &str, identity: &str) -> FileMetadata {
    FileMetadata {
        id,
        path: path.to_string(),
        content_hash: content.to_string(),
        identity_hash: identity.to_string(),
        file_system_id: 1,
        updated_at: "2024-01-01 00:00:00".to_string(),
    }
}

fn record(id: i32, path: &str, content: &str) -> FileRecord {
    FileRecord {
        id,
        name: path.rsplit('/').next().unwrap().to_string(),
        path: path.to_string(),
        content_hash: content.to_string(),
        identity_hash: format!("id-{}", content),
        file_type_id: 1,
        file_system_id: 7,
        created_at: "2024-01-01 00:00:00".to_string(),
        updated_at: "2024-01-02 00:00:00".to_string(),
    }
}

fn describe(ops: &[SyncOperation]) -> Vec<String> {
    ops.iter()
        .map(|op| match op {
            SyncOperation::Insert(f) => format!("insert {}", f.path),
            SyncOperation::Update(f) => format!("update {}", f.path),
            SyncOperation::Delete(p) => format!("delete {}", p),
        })
        .collect()
}

#[test]
fn sync_inserts_updates_and_deletes() {
    let db = vec![
        meta(1, "/lib/a.txt", "h1", "i1"),
        meta(2, "/lib/b.txt", "h2", "i2"),
        meta(3, "/lib/c.txt", "h3", "i3"),
    ];
    let fs = vec![
        info("/lib/b.txt", "h2", "i2"),
        info("/lib/a.txt", "h1-new", "i1"),
        info("/lib/d.txt", "h4", "i4"),
    ];
    let ops = calculate_sync_operations(db, fs);
    assert_eq!(
        describe(&ops),
        vec!["update /lib/a.txt", "insert /lib/d.txt", "delete /lib/c.txt"]
    );
}

#[test]
fn sync_compares_paths_by_components() {
    // `/lib//a.txt` and `/lib/./a.txt` name the same file as `/lib/a.txt`.
    let db = vec![meta(1, "/lib/a.txt", "h1", "i1")];
    let fs = vec![info("/lib//a.txt", "h1", "i1")];
    assert!(calculate_sync_operations(db, fs).is_empty());
    let db = vec![meta(1, "/lib/a.txt", "h1", "i1")];
    let fs = vec![info("/lib/./a.txt", "h1", "other")];
    assert_eq!(describe(&calculate_sync_operations(db, fs)), vec!["update /lib/./a.txt"]);
}

#[test]
fn sync_identity_change_is_an_update() {
    let db = vec![meta(1, "/x/f", "c", "old")];
    let fs = vec![info("/x/f", "c", "new")];
    assert_eq!(describe(&calculate_sync_operations(db, fs)), vec!["update /x/f"]);
}

#[test]
fn synced_directory_needs_no_operation() {
    let db = vec![meta(1, "/x/f", "c", "i"), meta(2, "/x/g", "d", "j")];
    let fs = vec![info("/x/g", "d", "j"), info("/x/f", "c", "i")];
    assert!(calculate_sync_operations(db, fs).is_empty());
}

#[test]
fn sync_of_empty_scan_deletes_everything() {
    let db = vec![meta(1, "/x/f", "c", "i"), meta(2, "/x/g", "d", "j")];
    assert_eq!(
        describe(&calculate_sync_operations(db, vec![])),
        vec!["delete /x/f", "delete /x/g"]
    );
}

#[test]
fn applying_operations_reproduces_the_scan() {
    let db = vec![meta(1, "/a", "1", "1"), meta(2, "/b", "2", "2"), meta(3, "/c", "3", "3")];
    let fs = vec![info("/c", "3", "3"), info("/b", "20", "2"), info("/e", "5", "5")];
    let mut state: BTreeMap<String, (String, String)> = db
        .iter()
        .map(|m| (m.path.clone(), (m.content_hash.clone(), m.identity_hash.clone())))
        .collect();
    let expected: BTreeMap<String, (String, String)> = fs
        .iter()
        .map(|f| (f.path.clone(), (f.content_hash.clone(), f.identity_hash.clone())))
        .collect();
    for op in calculate_sync_operations(db, fs) {
        match op {
            SyncOperation::Insert(f) | SyncOperation::Update(f) => {
                state.insert(f.path, (f.content_hash, f.identity_hash));
            }
            SyncOperation::Delete(p) => {
                state.remove(&p);
            }
        }
    }
    assert_eq!(state, expected);
}

#[test]
fn directory_state_keeps_the_last_row_per_path() {
    let rows = vec![
        record(1, "/d/a", "x"),
        record(2, "/d/b", "y"),
        record(3, "/d//a", "z"),
    ];
    let state = directory_state(rows);
    assert_eq!(state.len(), 2);
    assert_eq!(state[0].id, 3);
    assert_eq!(state[0].content_hash, "z");
    assert_eq!(state[0].path, "/d//a");
    assert_eq!(state[1].id, 2);
    assert_eq!(state[1].file_system_id, 7);
    assert_eq!(state[1].updated_at, "2024-01-02 00:00:00");
}

fn batch_shape(b: &[BatchAction]) -> Vec<String> {
    b.iter()
        .map(|x| match x {
            BatchAction::Upsert(v) => format!(
                "U[{}]",
                v.iter().map(|f| f.path.clone()).collect::<Vec<_>>().join(",")
            ),
            BatchAction::Delete(v) => format!("D[{}]", v.join(",")),
        })
        .collect()
}

#[test]
fn batches_fill_up_to_the_batch_size() {
    let ops = vec![
        SyncOperation::Insert(info("/1", "a", "a")),
        SyncOperation::Delete("/x".to_string()),
        SyncOperation::Update(info("/2", "a", "a")),
        SyncOperation::Insert(info("/3", "a", "a")),
        SyncOperation::Delete("/y".to_string()),
        SyncOperation::Delete("/z".to_string()),
    ];
    let batches = plan_batches(ops, 2);
    assert_eq!(batch_shape(&batches), vec!["U[/1,/2]", "D[/x,/y]", "U[/3]", "D[/z]"]);
}

#[test]
fn batch_size_zero_sends_each_operation_alone() {
    let ops = vec![
        SyncOperation::Insert(info("/1", "a", "a")),
        SyncOperation::Delete("/x".to_string()),
    ];
    assert_eq!(batch_shape(&plan_batches(ops, 0)), vec!["U[/1]", "D[/x]"]);
}

#[test]
fn no_operations_no_batches() {
    assert!(plan_batches(vec![], 100).is_empty());
}

#[test]
fn sync_report_starts_empty_and_counts() {
    let mut r = SyncReport::new();
    assert_eq!(r.total_operations(), 0);
    assert!(r.errors.is_empty());
    assert_eq!(r.duration, 0);
    r.record_upsert(Ok(UpsertFileBatchReport { file_inserted: 2, file_updated: 3 }));
    r.record_delete(Ok(4));
    assert_eq!(r.files_inserted, 5);
    assert_eq!(r.files_deleted, 4);
    assert_eq!(r.total_operations(), 9);
    r.record_upsert(Err(DbError::InsertError));
    r.record_delete(Err(DbError::DeleteError));
    assert_eq!(
        r.errors,
        vec![
            "Failed to execute insert batch: InsertError".to_string(),
            "Failed to execute delete batch: DeleteError".to_string()
        ]
    );
    assert_eq!(r.total_operations(), 9);
}

#[test]
fn upserts_are_counted_by_whether_the_row_existed() {
    let r = count_upserts(&vec![true, false, false, true, false]);
    assert_eq!(r.file_inserted, 2);
    assert_eq!(r.file_updated, 3);
}

#[test]
fn scan_config_defaults() {
    let c = ScanConfig::default();
    assert_eq!(c.batch_size, 100);
    assert!(c.recursive);
    assert_eq!(c.ignore_extensions, vec![".tmp", ".log", ".bak", ".swp"]);
    assert_eq!(
        c.ignore_directories,
        vec![".git", ".svn", "node_modules", "target", ".DS_Store"]
    );
    assert_eq!(c.max_file_size, Some(104857600));
}

#[test]
fn scan_config_skips_ignored_entries() {
    let c = ScanConfig::default();
    assert!(c.skips_directory("/repo/.git"));
    assert!(c.skips_directory("/repo/node_modules/"));
    assert!(!c.skips_directory("/repo/src"));
    assert!(c.skips_file("/repo/a.log", Some(1)));
    assert!(c.skips_file("/repo/notes.tmp", None));
    assert!(!c.skips_file("/repo/a.LOG", Some(1)));
    assert!(!c.skips_file("/repo/a.txt", Some(104857600)));
    assert!(c.skips_file("/repo/a.txt", Some(104857601)));
    assert!(!c.skips_file("/repo/a.txt", None));
    assert!(!c.skips_file("/repo/.log", Some(1)));
}

#[test]
fn file_info_records_name_hashes_and_type() {
    let content = blake3::hash(b"hello");
    let identity = blake3::hash(b"identity");
    let h = FileHash {
        content_hash: *content.as_bytes(),
        identity_hash: *identity.as_bytes(),
        file_id: FileId::Inode { device_id: 1, inode_num: 2 },
    };
    let f = create_file_info("/docs/Report.PDF", &h);
    assert_eq!(f.path, "/docs/Report.PDF");
    assert_eq!(f.name, "Report.PDF");
    assert_eq!(f.content_hash, format!("{:?}", content));
    assert_eq!(f.identity_hash, format!("{:?}", identity));
    assert_eq!(f.file_type_name, "pdf");
    assert_eq!(f.file_system_id, None);
    let g = create_file_info("/", &h);
    assert_eq!(g.name, "unknown");
    assert_eq!(g.file_type_name, "unknown");
}

#[test]
fn walk_decisions_follow_the_configuration() {
    let mut c = ScanConfig::default();
    assert_eq!(c.entry_action("/r/.git", true, false, None), EntryAction::Skip);
    assert_eq!(c.entry_action("/r/src", true, false, None), EntryAction::Recurse);
    assert_eq!(c.entry_action("/r/a.bak", false, true, Some(3)), EntryAction::Skip);
    assert_eq!(c.entry_action("/r/a.rs", false, true, Some(3)), EntryAction::Process);
    assert_eq!(c.entry_action("/r/socket", false, false, None), EntryAction::Pass);
    c.recursive = false;
    assert_eq!(c.entry_action("/r/src", true, false, None), EntryAction::Pass);
}

#[test]
fn folder_upserts_are_counted_by_whether_the_row_existed() {
    let r = count_folder_upserts(&vec![true, true, false]);
    assert_eq!((r.folder_inserted, r.folder_updated), (1, 2));
}

#[test]
fn directory_rows_are_kept_by_component() {
    let rows = vec![
        record(1, "/a/b/x.txt", "h1"),
        record(2, "/a/bc/y.txt", "h2"),
        record(3, "/a/b/sub/z.txt", "h3"),
        record(4, "/a/b", "h4"),
    ];
    let kept: Vec<i32> = files_in_directory(rows, "/a/b").iter().map(|r| r.id).collect();
    assert_eq!(kept, vec![1, 3, 4]);
    let none: Vec<i32> = files_in_directory(vec![record(5, "/a/bc", "h5")], "/a/b").iter().map(|r| r.id).collect();
    assert!(none.is_empty());
}

#[test]
fn repeated_scan_entries_in_sync_need_nothing() {
    let db = vec![meta(1, "/d/a.txt", "c1", "i1"), meta(2, "/d/b.txt", "c2", "i2")];
    let fs = vec![info("/d/a.txt", "c1", "i1"), info("/d/b.txt", "c2", "i2"), info("/d/a.txt", "c1", "i1")];
    assert!(calculate_sync_operations(db, fs).is_empty());
}
