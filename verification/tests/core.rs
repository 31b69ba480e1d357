use hestia::data::file_system_key;
use hestia::data::{File, FolderInfo, FolderRecord, WatchedFolderTree};
use hestia::errors::{
    AppError, AppErrorKind, ConfigError, ConfigErrorKind, DbError, FileError, HashError,
    LibraryError, ScannerError, WatcherError,
};
use hestia::file_type::detect_file_type;
use hestia::hashing::{digest_to_string, ChildHash, FileHash, FileId, FolderHash};
use hestia::paths::{
    path_extension, path_file_name, path_is_direct_child, path_join, path_starts_with, paths_equal,
};
use hestia::report::{check_health, scan_path_check, FileInfo, FileRecord, ScanReport};
use hestia::scanner::SyncReport;
use hestia::text::{from_chars, to_chars};

#[test]
fn paths_compare_by_components() {
    assert!(paths_equal("/a/b", "/a//b/"));
    assert!(paths_equal("/a/./b", "/a/b"));
    assert!(!paths_equal("/a/b", "a/b"));
    assert!(!paths_equal("/a/../b", "/b"));
    assert!(path_starts_with("/a/b/c", "/a/b"));
    assert!(!path_starts_with("/a/bc", "/a/b"));
    assert!(path_starts_with("/a", "/a"));
    assert!(path_is_direct_child("/a/b/c.txt", "/a/b"));
    assert!(!path_is_direct_child("/a/b/c/d.txt", "/a/b"));
    assert!(!path_is_direct_child("/", "/"));
}

#[test]
fn file_names_and_extensions() {
    assert_eq!(path_file_name("/a/b.txt").as_deref(), Some("b.txt"));
    assert_eq!(path_file_name("/a/b/").as_deref(), Some("b"));
    assert_eq!(path_file_name("/"), None);
    assert_eq!(path_file_name("/a/.."), None);
    assert_eq!(path_extension("/a/b.tar.gz").as_deref(), Some("gz"));
    assert_eq!(path_extension("/a/.bashrc"), None);
    assert_eq!(path_extension("/a/b."), Some(String::new()));
    assert_eq!(path_extension("/a/b"), None);
}

#[test]
fn joining_paths() {
    assert_eq!(path_join("/a", "b"), "/a/b");
    assert_eq!(path_join("/a/", "b"), "/a/b");
    assert_eq!(path_join("/a", "/b"), "/b");
    assert_eq!(path_join("", "b"), "b");
    // the joined name is the file name, and the base is its parent
    let j = path_join("/lib/photos", "x.png");
    assert_eq!(path_file_name(&j).as_deref(), Some("x.png"));
    assert!(path_is_direct_child(&j, "/lib/photos"));
}

#[test]
fn file_types_by_extension() {
    assert_eq!(detect_file_type("/x/notes.md", false), "markdown");
    assert_eq!(detect_file_type("/x/IMG.JPG", false), "image_jpeg");
    assert_eq!(detect_file_type("/x/movie.MkV", false), "video");
    assert_eq!(detect_file_type("/x/archive.7z", false), "archive");
    assert_eq!(detect_file_type("/x/data.xyz", false), "ext_xyz");
    assert_eq!(detect_file_type("/x/Data.XYZ", false), "ext_xyz");
    assert_eq!(detect_file_type("/x/folder", true), "directory");
    assert_eq!(detect_file_type("/x/Makefile", false), "unknown");
    assert_eq!(File::detect_file_type("/x/main.rs", false), "rust");
}

#[test]
fn text_round_trip() {
    let v = to_chars("héllo");
    assert_eq!(v, vec!['h', 'é', 'l', 'l', 'o']);
    assert_eq!(from_chars(&v), "héllo");
}

#[test]
fn digests_print_like_blake3() {
    let h = blake3::hash(b"abc");
    assert_eq!(digest_to_string(h.as_bytes()), format!("{:?}", h));
    let empty = FileHash::hash_file_content(b"");
    assert_eq!(
        digest_to_string(&empty),
        "Hash(\"af1349b9f5f9a1a6a0404dea36dcc9499bcb25c9adc112b7cc9a93cae41f3262\")"
    );
    assert_eq!(FileHash::hash_file_content(b"abc"), *h.as_bytes());
}

#[test]
fn file_hash_of_content_and_identity() {
    let id = FileId::Inode { device_id: 7, inode_num: 9 };
    let h = FileHash::hash("/docs/a.txt", b"content", id).unwrap();
    assert_eq!(h.content_hash, *blake3::hash(b"content").as_bytes());
    let mut input = h.content_hash.to_vec();
    input.extend_from_slice(&7u64.to_le_bytes());
    input.extend_from_slice(&9u64.to_le_bytes());
    input.extend_from_slice(b"a.txt");
    assert_eq!(h.identity_hash, *blake3::hash(&input).as_bytes());
    assert!(h.file_id == id);
    match FileHash::hash("/", b"x", id) {
        Err(AppError::Categorized { kind, message, source }) => {
            assert_eq!(kind, AppErrorKind::HashError);
            assert_eq!(message, "The path to be hashed is invalid!");
            assert_eq!(source.as_deref(), Some("The path to be hashed is invalid!"));
        }
        Ok(_) => panic!("expected an error"),
    }
}

#[test]
fn folder_hash_is_independent_of_listing_order() {
    let a = *blake3::hash(b"a").as_bytes();
    let b = *blake3::hash(b"b").as_bytes();
    let mut v1 = vec![a, b];
    let mut v2 = vec![b, a];
    let c1 = FolderHash::hash_content(&mut v1);
    let c2 = FolderHash::hash_content(&mut v2);
    assert_eq!(c1, c2);
    let mut sorted = vec![a, b];
    sorted.sort();
    assert_eq!(v1, sorted);
    assert_eq!(v2, sorted);
    let mut input = Vec::new();
    for d in &sorted {
        input.extend_from_slice(d);
    }
    assert_eq!(c1, *blake3::hash(&input).as_bytes());
    let children = vec![
        ChildHash { name: "b.txt".to_string(), is_dir: false, content_hash: b },
        ChildHash { name: "a".to_string(), is_dir: true, content_hash: a },
    ];
    let s = FolderHash::hash_structure(&children);
    assert_eq!(s, *blake3::hash(b"a\x01b.txt\x00").as_bytes());
    let reversed = vec![
        ChildHash { name: "a".to_string(), is_dir: true, content_hash: a },
        ChildHash { name: "b.txt".to_string(), is_dir: false, content_hash: b },
    ];
    assert_eq!(FolderHash::hash_structure(&reversed), s);
    let id = FileId::Index { volume_serial_num: 1, file_index: 2 };
    let fh = FolderHash::hash("/root/dir", &children, id).unwrap();
    assert_eq!(fh.structure_hash, s);
    assert_eq!(fh.content_hash, c1);
    let mut ident = s.to_vec();
    ident.extend_from_slice(&c1);
    ident.extend_from_slice(&1u32.to_le_bytes());
    ident.extend_from_slice(&2u64.to_le_bytes());
    ident.extend_from_slice(b"dir");
    assert_eq!(fh.identity_hash, *blake3::hash(&ident).as_bytes());
}

#[test]
fn file_ids_compare_by_kind_and_numbers() {
    let a = FileId::Inode { device_id: 1, inode_num: 2 };
    let b = FileId::Inode { device_id: 1, inode_num: 2 };
    let c = FileId::Index { volume_serial_num: 1, file_index: 2 };
    assert!(a == b);
    assert!(a != c);
    assert!(FileId::Inode { device_id: 1, inode_num: 3 } != a);
}

#[test]
fn error_texts() {
    assert_eq!(AppErrorKind::DbError.to_string(), "DbError");
    let e = AppError::new(AppErrorKind::FileError, "boom".to_string());
    assert_eq!(e.to_string(), "FileError: boom");
    assert_eq!(AppError::from_db_error(DbError::QueryError).to_string(), "DbError: Database query failed!");
    assert_eq!(
        AppError::from_file_error(FileError::Io { path: "/x".to_string() }).to_string(),
        "FileError: Input/Output error: /x"
    );
    assert_eq!(
        AppError::from_hash_error(HashError::IoError).to_string(),
        "HashError: An IO error occurred while trying to hash file or folder!"
    );
    assert_eq!(DbError::SeaOrmError.to_string(), "SeaORM process has failed!");
    assert_eq!(DbError::SeaOrmError.name(), "SeaOrmError");
    assert_eq!(FileError::PathNotFoundError { path: "/p".to_string() }.to_string(), "Path could not be found: /p");
    assert!(FileError::Io { path: "a".to_string() } == FileError::Io { path: "b".to_string() });
    assert!(FileError::Io { path: "a".to_string() } != FileError::GenericError { path: "a".to_string() });
    assert_eq!(LibraryError::DeletionTimeout.to_string(), "The deletion of the library has timed out!");
    assert_eq!(
        ScannerError::PathScanFailedError { path: "/s".to_string() }.to_string(),
        "The scan of path /s failed!"
    );
    assert_eq!(
        WatcherError::PathNotWatched { path: "/w".to_string() }.to_string(),
        "The path /w is not being watched and cannot be unwatched!"
    );
    assert_eq!(WatcherError::Io("gone".to_string()).to_string(), "The operation could not be completed because of an IO failure! Cause: gone");
    assert_eq!(ConfigErrorKind::IoError("x".to_string()).to_string(), "IoError: x");
    assert_eq!(ConfigError { kind: ConfigErrorKind::NoCredentialsFound }.to_string(), "NoCredentialsFound");
}

fn record() -> FileRecord {
    FileRecord {
        id: 4,
        name: "n".to_string(),
        path: "/p/n.txt".to_string(),
        content_hash: "c".to_string(),
        identity_hash: "i".to_string(),
        file_type_id: 5,
        file_system_id: 6,
        created_at: "2024-01-01 00:00:00".to_string(),
        updated_at: "2024-01-02 00:00:00".to_string(),
    }
}

#[test]
fn reports_and_records() {
    let r = ScanReport {
        files_scanned: 10,
        files_inserted: 1,
        files_updated: 2,
        files_deleted: 3,
        duration: 5,
        errors: vec![],
    };
    assert_eq!(r.total_operations(), 6);
    let mut s = SyncReport::new();
    s.files_scanned = 7;
    s.files_inserted = 2;
    s.errors.push("e".to_string());
    let sr = ScanReport::from_sync(s, 99);
    assert_eq!((sr.files_scanned, sr.files_inserted, sr.duration), (7, 2, 99));
    assert_eq!(sr.errors, vec!["e".to_string()]);
    let f = FileInfo::from_record(record());
    assert_eq!((f.id, f.file_type_id, f.file_system_id), (4, 5, 6));
    assert_eq!(f.updated_at, "2024-01-02 00:00:00");
    assert_eq!(check_health(), "Hello from Rust");
    assert_eq!(scan_path_check(false, false), Err("Directory does not exist".to_string()));
    assert_eq!(scan_path_check(true, false), Err("Path is not a directory".to_string()));
    assert_eq!(scan_path_check(true, true), Ok(()));
}

#[test]
fn files_and_folders_for_display() {
    let f = File::from_record(record(), false);
    assert_eq!(f.id, Some(4));
    assert_eq!(f.file_type_name, "text");
    assert_eq!(f.file_system_id, Some(6));
    let folder = FolderInfo::from_record(FolderRecord {
        id: 1,
        name: "d".to_string(),
        path: "/d".to_string(),
        parent_folder_id: Some(0),
        content_hash: "c".to_string(),
        identity_hash: "i".to_string(),
        structure_hash: "s".to_string(),
        file_system_id: 3,
        created_at: "a".to_string(),
        updated_at: "b".to_string(),
    });
    assert_eq!((folder.id, folder.parent_folder_id, folder.structure_hash.as_str()), (1, Some(0), "s"));
}

#[test]
fn watched_folder_tree_builders() {
    let t = WatchedFolderTree::new("n".to_string(), "/p".to_string());
    assert!(t.children.is_none() && t.icon.is_none() && t.color.is_none());
    let t = t.children(vec!["/p/a".to_string()]).icon("star".to_string()).color("red".to_string());
    assert_eq!(t.children, Some(vec!["/p/a".to_string()]));
    assert_eq!(t.icon.as_deref(), Some("star"));
    assert_eq!(t.color.as_deref(), Some("red"));
    assert_eq!(t.name, "n");
    let u = WatchedFolderTree::with_icon_and_color("m".to_string(), "/q".to_string(), None, Some("blue".to_string()));
    assert!(u.children.is_none());
    assert_eq!(u.color.as_deref(), Some("blue"));
    let w = WatchedFolderTree::with("m".to_string(), "/q".to_string(), Some(vec![]), Some("i".to_string()), None);
    assert_eq!(w.children, Some(vec![]));
    assert_eq!(w.icon.as_deref(), Some("i"));
}

#[test]
fn file_system_keys_truncate_to_the_columns() {
    let k = file_system_key(7, 0x1_0000_0005);
    assert_eq!((k.inode, k.device_num, k.index_num, k.volume_serial_num), (5, 7, 5, 0));
    let k = file_system_key(u64::MAX, 42);
    assert_eq!((k.inode, k.device_num), (42, -1));
}

#[test]
fn catalogue_files_from_disk() {
    let content = blake3::hash(b"pixels");
    let identity = blake3::hash(b"who");
    let h = FileHash {
        content_hash: *content.as_bytes(),
        identity_hash: *identity.as_bytes(),
        file_id: FileId::Inode { device_id: 1, inode_num: 1 },
    };
    let f = File::create_file_info_from_path("/pics/cat.PNG", &h);
    assert_eq!(f.id, None);
    assert_eq!(f.name, "cat.PNG");
    assert_eq!(f.file_type_name, "image_png");
    assert_eq!(f.content_hash, format!("{:?}", content));
    assert_eq!(f.identity_hash, format!("{:?}", identity));
    assert!(f.file_system_id.is_none());
}
