//! Directory synchronisation: what a scan keeps, what it records about each
//! file, and which database operations bring the database in line with the
//! file system.
use vstd::prelude::*;
use vstd::string::StringExecFns;
use crate::errors::DbError;
use crate::report::FileRecord;
use crate::file_type::{detect_file_type, file_type_of};
use crate::hashing::{digest_to_string, digest_text, FileHash};
use crate::paths::{
    components_eq, cview, extension, file_name, full_components, full_components_of, path_extension,
    path_file_name, path_starts_with, starts_with,
};
use crate::text::{from_chars, to_chars};

verus! {

// ----- configuration -----

/// Configuration of a directory scan.
pub struct ScanConfig {
    /// Largest number of operations sent to the database in one batch.
    pub batch_size: usize,
    /// Whether subdirectories are scanned too.
    pub recursive: bool,
    /// File extensions, with their leading dot, whose files are skipped.
    pub ignore_extensions: Vec<String>,
    /// Directory names that are not entered.
    pub ignore_directories: Vec<String>,
    /// Files larger than this many bytes are skipped.
    pub max_file_size: Option<u64>,
}

/// Whether one of `v` has the text `s`.
pub open spec fn contains_text(v: Seq<String>, s: Seq<char>) -> bool {
    exists|i: int| 0 <= i < v.len() && (#[trigger] v[i])@ == s
}

fn has_text(v: &Vec<String>, s: &String) -> (r: bool)
    ensures
        r == contains_text(v@, s@),
{
    let mut i: usize = 0;
    while i < v.len()
        invariant
            i <= v.len(),
            forall|j: int| 0 <= j < i ==> (#[trigger] v@[j])@ != s@,
        decreases v.len() - i,
    {
        if v[i] == *s {
            return true;
        }
        i = i + 1;
    }
    false
}

impl ScanConfig {
    /// The extensions skipped by default.
    pub open spec fn default_extensions() -> Seq<Seq<char>> {
        seq![".tmp"@, ".log"@, ".bak"@, ".swp"@]
    }

    /// The directories skipped by default.
    pub open spec fn default_directories() -> Seq<Seq<char>> {
        seq![".git"@, ".svn"@, "node_modules"@, "target"@, ".DS_Store"@]
    }

    /// Whether the directory at `path` is left out of a scan: its name is one
    /// of the ignored directories.
    pub open spec fn spec_skips_directory(&self, path: Seq<char>) -> bool {
        file_name(path) matches Some(n) && contains_text(self.ignore_directories@, n)
    }

    /// Whether the file at `path`, of `size` bytes where the size could be
    /// read, is left out of a scan: its extension, with a leading dot, is
    /// ignored, or it is larger than the size limit.
    pub open spec fn spec_skips_file(&self, path: Seq<char>, size: Option<u64>) -> bool {
        ||| (extension(path) matches Some(e) && contains_text(
            self.ignore_extensions@,
            seq!['.'] + e,
        ))
        ||| (self.max_file_size matches Some(m) && size matches Some(len) && len > m)
    }

    /// Whether the directory at `path` is left out of a scan.
    pub fn skips_directory(&self, path: &str) -> (r: bool)
        ensures
            r == self.spec_skips_directory(path@),
    {
        match path_file_name(path) {
            Some(n) => has_text(&self.ignore_directories, &n),
            None => false,
        }
    }

    /// Whether the file at `path` is left out of a scan. `size` is the file's
    /// length in bytes, or `None` where its metadata could not be read (such a
    /// file is not skipped for its size).
    pub fn skips_file(&self, path: &str, size: Option<u64>) -> (r: bool)
        ensures
            r == self.spec_skips_file(path@, size),
    {
        let by_extension = match path_extension(path) {
            Some(e) => {
                let ev = to_chars(e.as_str());
                let mut dotted: Vec<char> = Vec::new();
                dotted.push('.');
                let mut i: usize = 0;
                while i < ev.len()
                    invariant
                        i <= ev.len(),
                        ev@ == e@,
                        dotted@ == seq!['.'] + ev@.take(i as int),
                    decreases ev.len() - i,
                {
                    dotted.push(ev[i]);
                    assert(ev@.take(i + 1) =~= ev@.take(i as int).push(ev@[i as int]));
                    i = i + 1;
                }
                assert(ev@.take(ev.len() as int) =~= ev@);
                let ds = from_chars(&dotted);
                has_text(&self.ignore_extensions, &ds)
            },
            None => false,
        };
        if by_extension {
            return true;
        }
        match (self.max_file_size, size) {
            (Some(m), Some(len)) => len > m,
            _ => false,
        }
    }
}

/// What a scan does with one entry of a directory.
#[derive(Debug, Clone, Copy, PartialEq, Eq, Structural)]
pub enum EntryAction {
    /// Leave it out, as the configuration says.
    Skip,
    /// Scan the subdirectory.
    Recurse,
    /// Record the file.
    Process,
    /// Nothing to do: a subdirectory of a scan that does not recurse, or an
    /// entry that is neither a file nor a directory.
    Pass,
}

impl ScanConfig {
    /// What a scan does with the entry at `path`: directories are skipped when
    /// ignored and entered when the scan recurses; files are skipped when
    /// ignored and recorded otherwise. `size` is the file's length, where it
    /// could be read.
    pub fn entry_action(&self, path: &str, is_dir: bool, is_file: bool, size: Option<u64>) -> (r: EntryAction)
        ensures
            is_dir ==> r == if self.spec_skips_directory(path@) {
                EntryAction::Skip
            } else if self.recursive {
                EntryAction::Recurse
            } else {
                EntryAction::Pass
            },
            !is_dir && is_file ==> r == if self.spec_skips_file(path@, size) {
                EntryAction::Skip
            } else {
                EntryAction::Process
            },
            !is_dir && !is_file ==> r == EntryAction::Pass,
    {
        if is_dir {
            if self.skips_directory(path) {
                EntryAction::Skip
            } else if self.recursive {
                EntryAction::Recurse
            } else {
                EntryAction::Pass
            }
        } else if is_file {
            if self.skips_file(path, size) {
                EntryAction::Skip
            } else {
                EntryAction::Process
            }
        } else {
            EntryAction::Pass
        }
    }
}

impl Default for ScanConfig {
    fn default() -> (r: ScanConfig)
        ensures
            r.batch_size == 100,
            r.recursive,
            r.ignore_extensions@.map_values(|s: String| s@) == ScanConfig::default_extensions(),
            r.ignore_directories@.map_values(|s: String| s@) == ScanConfig::default_directories(),
            r.max_file_size == Some(104857600u64),
    {
        let mut ext: Vec<String> = Vec::new();
        ext.push(String::from_str(".tmp"));
        ext.push(String::from_str(".log"));
        ext.push(String::from_str(".bak"));
        ext.push(String::from_str(".swp"));
        let mut dirs: Vec<String> = Vec::new();
        dirs.push(String::from_str(".git"));
        dirs.push(String::from_str(".svn"));
        dirs.push(String::from_str("node_modules"));
        dirs.push(String::from_str("target"));
        dirs.push(String::from_str(".DS_Store"));
        assert(ext@.map_values(|s: String| s@) =~= ScanConfig::default_extensions());
        assert(dirs@.map_values(|s: String| s@) =~= ScanConfig::default_directories());
        ScanConfig {
            batch_size: 100,
            recursive: true,
            ignore_extensions: ext,
            ignore_directories: dirs,
            max_file_size: Some(100 * 1024 * 1024),
        }
    }
}

// ----- what a scan records -----

/// A file found on disk, as the scan hands it to the database.
pub struct FileInfo {
    pub path: String,
    pub name: String,
    /// Text of the content digest.
    pub content_hash: String,
    /// Text of the identity digest.
    pub identity_hash: String,
    pub file_type_name: String,
    /// Identifier of the file system, where already known.
    pub file_system_id: Option<i32>,
}

impl Clone for FileInfo {
    fn clone(&self) -> (r: FileInfo)
        ensures
            r == *self,
    {
        FileInfo {
            path: self.path.clone(),
            name: self.name.clone(),
            content_hash: self.content_hash.clone(),
            identity_hash: self.identity_hash.clone(),
            file_type_name: self.file_type_name.clone(),
            file_system_id: self.file_system_id,
        }
    }
}

/// The name recorded for a file at `path`: its file name, or `unknown`.
pub open spec fn recorded_name(path: Seq<char>) -> Seq<char> {
    match file_name(path) {
        Some(n) => n,
        None => "unknown"@,
    }
}

/// The record of the file at `path` with the hashes `hash`: its name, the
/// text of both digests and the type read from its extension. The file
/// system identifier is left for the database to fill in.
pub fn create_file_info(path: &str, hash: &FileHash) -> (r: FileInfo)
    ensures
        r.path@ == path@,
        r.name@ == recorded_name(path@),
        r.content_hash@ == digest_text(hash.content_hash@),
        r.identity_hash@ == digest_text(hash.identity_hash@),
        r.file_type_name@ == file_type_of(path@, false),
        r.file_system_id is None,
{
    let name = match path_file_name(path) {
        Some(n) => n,
        None => String::from_str("unknown"),
    };
    FileInfo {
        path: String::from_str(path),
        name,
        content_hash: digest_to_string(&hash.content_hash),
        identity_hash: digest_to_string(&hash.identity_hash),
        file_type_name: detect_file_type(path, false),
        file_system_id: None,
    }
}

// ----- what the database holds -----

/// A file as the database holds it, for comparison with the disk.
pub struct FileMetadata {
    pub id: i32,
    pub path: String,
    pub content_hash: String,
    pub identity_hash: String,
    pub file_system_id: i32,
    pub updated_at: String,
}

impl Clone for FileMetadata {
    fn clone(&self) -> (r: FileMetadata)
        ensures
            r == *self,
    {
        FileMetadata {
            id: self.id,
            path: self.path.clone(),
            content_hash: self.content_hash.clone(),
            identity_hash: self.identity_hash.clone(),
            file_system_id: self.file_system_id,
            updated_at: self.updated_at.clone(),
        }
    }
}

/// The key under which a path is looked up: its components, as `PathBuf`
/// compares paths.
pub open spec fn path_key(p: Seq<char>) -> Seq<Seq<char>> {
    full_components(p)
}

/// The keys of database entries, in order.
pub open spec fn meta_keys(s: Seq<FileMetadata>) -> Seq<Seq<Seq<char>>> {
    s.map_values(|m: FileMetadata| path_key(m.path@))
}

/// The keys of scanned files, in order.
pub open spec fn info_keys(s: Seq<FileInfo>) -> Seq<Seq<Seq<char>>> {
    s.map_values(|f: FileInfo| path_key(f.path@))
}

/// The database entry under key `k` (the one, where keys are distinct).
pub open spec fn meta_for(s: Seq<FileMetadata>, k: Seq<Seq<char>>) -> FileMetadata {
    s[meta_keys(s).index_of(k)]
}

/// The scanned file under key `k` (the one, where keys are distinct).
pub open spec fn info_for(s: Seq<FileInfo>, k: Seq<Seq<char>>) -> FileInfo {
    s[info_keys(s).index_of(k)]
}

// ----- synchronisation -----

/// One change that brings the database in line with the disk.
pub enum SyncOperation {
    /// A file on disk that the database lacks.
    Insert(FileInfo),
    /// A file whose hashes changed since the database recorded it.
    Update(FileInfo),
    /// A recorded path that is no longer on disk.
    Delete(String),
}

/// Whether the recorded hashes of `m` differ from the scanned ones of `f`.
pub open spec fn hashes_differ(m: FileMetadata, f: FileInfo) -> bool {
    m.content_hash@ != f.content_hash@ || m.identity_hash@ != f.identity_hash@
}

/// The operation, if any, that a scanned file calls for: an insert where the
/// database lacks its path, an update where its hashes differ, else none.
pub open spec fn op_for_file(db: Seq<FileMetadata>, f: FileInfo) -> Seq<SyncOperation> {
    let k = path_key(f.path@);
    if meta_keys(db).contains(k) {
        if hashes_differ(meta_for(db, k), f) {
            seq![SyncOperation::Update(f)]
        } else {
            seq![]
        }
    } else {
        seq![SyncOperation::Insert(f)]
    }
}

/// The inserts and updates that the scanned files call for, in scan order.
pub open spec fn file_ops(db: Seq<FileMetadata>, fs: Seq<FileInfo>) -> Seq<SyncOperation>
    decreases fs.len(),
{
    if fs.len() == 0 {
        seq![]
    } else {
        file_ops(db, fs.drop_last()) + op_for_file(db, fs.last())
    }
}

/// The deletes of recorded paths that the scan did not find, in database order.
pub open spec fn delete_ops(db: Seq<FileMetadata>, fs: Seq<FileInfo>) -> Seq<SyncOperation>
    decreases db.len(),
{
    if db.len() == 0 {
        seq![]
    } else {
        delete_ops(db.drop_last(), fs) + if info_keys(fs).contains(path_key(db.last().path@)) {
            seq![]
        } else {
            seq![SyncOperation::Delete(db.last().path)]
        }
    }
}

/// All operations of a synchronisation: those of the scanned files, then the
/// deletes.
pub open spec fn sync_operations(db: Seq<FileMetadata>, fs: Seq<FileInfo>) -> Seq<SyncOperation> {
    file_ops(db, fs) + delete_ops(db, fs)
}

fn keys_of_metadata(db: &Vec<FileMetadata>) -> (r: Vec<Vec<Vec<char>>>)
    ensures
        r.len() == db.len(),
        forall|j: int| 0 <= j < db.len() ==> cview((#[trigger] r@[j])@) == meta_keys(db@)[j],
{
    let mut r: Vec<Vec<Vec<char>>> = Vec::new();
    let mut j: usize = 0;
    while j < db.len()
        invariant
            j <= db.len(),
            r.len() == j,
            forall|i: int| 0 <= i < j ==> cview((#[trigger] r@[i])@) == meta_keys(db@)[i],
        decreases db.len() - j,
    {
        r.push(full_components_of(db[j].path.as_str()));
        j = j + 1;
    }
    r
}

fn keys_of_files(fs: &Vec<FileInfo>) -> (r: Vec<Vec<Vec<char>>>)
    ensures
        r.len() == fs.len(),
        forall|j: int| 0 <= j < fs.len() ==> cview((#[trigger] r@[j])@) == info_keys(fs@)[j],
{
    let mut r: Vec<Vec<Vec<char>>> = Vec::new();
    let mut j: usize = 0;
    while j < fs.len()
        invariant
            j <= fs.len(),
            r.len() == j,
            forall|i: int| 0 <= i < j ==> cview((#[trigger] r@[i])@) == info_keys(fs@)[i],
        decreases fs.len() - j,
    {
        r.push(full_components_of(fs[j].path.as_str()));
        j = j + 1;
    }
    r
}

/// Index of `k` among `keys`, where it is there.
fn find_key(keys: &Vec<Vec<Vec<char>>>, k: &Vec<Vec<char>>) -> (r: Option<usize>)
    ensures
        match r {
            Some(j) => j < keys.len() && cview(keys@[j as int]@) == cview(k@) && forall|i: int|
                0 <= i < j ==> cview((#[trigger] keys@[i])@) != cview(k@),
            None => forall|i: int| 0 <= i < keys.len() ==> cview((#[trigger] keys@[i])@) != cview(k@),
        },
{
    let mut j: usize = 0;
    while j < keys.len()
        invariant
            j <= keys.len(),
            forall|i: int| 0 <= i < j ==> cview((#[trigger] keys@[i])@) != cview(k@),
        decreases keys.len() - j,
    {
        if components_eq(&keys[j], k) {
            return Some(j);
        }
        j = j + 1;
    }
    None
}

/// The operations that bring the database entries `db_state` in line with the
/// files `fs_files` found on disk (see [`sync_operations`]). The entries have
/// distinct paths, as the keys of a map do.
pub fn calculate_sync_operations(db_state: Vec<FileMetadata>, fs_files: Vec<FileInfo>) -> (r: Vec<
    SyncOperation,
>)
    requires
        meta_keys(db_state@).no_duplicates(),
    ensures
        r@ == sync_operations(db_state@, fs_files@),
        forall|i: int|
            0 <= i < fs_files.len() && (forall|j: int|
                0 <= j < db_state.len() ==> full_components((#[trigger] db_state@[j]).path@)
                    != full_components(fs_files@[i].path@)) ==> r@.contains(
                SyncOperation::Insert(#[trigger] fs_files@[i]),
            ),
        forall|j: int|
            0 <= j < db_state.len() && (forall|i: int|
                0 <= i < fs_files.len() ==> full_components((#[trigger] fs_files@[i]).path@)
                    != full_components(db_state@[j].path@)) ==> r@.contains(
                SyncOperation::Delete((#[trigger] db_state@[j]).path),
            ),
{
    let db_keys = keys_of_metadata(&db_state);
    let fs_keys = keys_of_files(&fs_files);
    let mut ops: Vec<SyncOperation> = Vec::new();
    let mut i: usize = 0;
    while i < fs_files.len()
        invariant
            i <= fs_files.len(),
            meta_keys(db_state@).no_duplicates(),
            db_keys.len() == db_state.len(),
            fs_keys.len() == fs_files.len(),
            forall|j: int| 0 <= j < db_state.len() ==> cview((#[trigger] db_keys@[j])@) == meta_keys(db_state@)[j],
            forall|j: int| 0 <= j < fs_files.len() ==> cview((#[trigger] fs_keys@[j])@) == info_keys(fs_files@)[j],
            ops@ == file_ops(db_state@, fs_files@.take(i as int)),
        decreases fs_files.len() - i,
    {
        let f = &fs_files[i];
        let ghost k = path_key(f.path@);
        assert(cview(fs_keys@[i as int]@) == k);
        let ghost before = ops@;
        match find_key(&db_keys, &fs_keys[i]) {
            Some(j) => {
                assert(meta_keys(db_state@)[j as int] == k);
                assert(meta_keys(db_state@).contains(k));
                let ghost idx = meta_keys(db_state@).index_of(k);
                assert(idx == j);
                let m = &db_state[j];
                let differ = !(m.content_hash == f.content_hash) || !(m.identity_hash == f.identity_hash);
                if differ {
                    ops.push(SyncOperation::Update(f.clone()));
                }
            },
            None => {
                assert forall|x: int| 0 <= x < db_state.len() implies meta_keys(db_state@)[x] != k by {
                    assert(cview(db_keys@[x]@) != cview(fs_keys@[i as int]@));
                }
                assert(!meta_keys(db_state@).contains(k));
                ops.push(SyncOperation::Insert(f.clone()));
            },
        }
        assert(fs_files@.take(i + 1).drop_last() =~= fs_files@.take(i as int));
        assert(fs_files@.take(i + 1).last() == fs_files@[i as int]);
        assert(ops@ =~= before + op_for_file(db_state@, fs_files@[i as int]));
        i = i + 1;
    }
    assert(fs_files@.take(fs_files.len() as int) =~= fs_files@);
    let ghost after_files = ops@;
    let mut j: usize = 0;
    while j < db_state.len()
        invariant
            j <= db_state.len(),
            db_keys.len() == db_state.len(),
            fs_keys.len() == fs_files.len(),
            forall|i: int| 0 <= i < db_state.len() ==> cview((#[trigger] db_keys@[i])@) == meta_keys(db_state@)[i],
            forall|i: int| 0 <= i < fs_files.len() ==> cview((#[trigger] fs_keys@[i])@) == info_keys(fs_files@)[i],
            after_files == file_ops(db_state@, fs_files@),
            ops@ == after_files + delete_ops(db_state@.take(j as int), fs_files@),
        decreases db_state.len() - j,
    {
        let ghost k = path_key(db_state@[j as int].path@);
        assert(cview(db_keys@[j as int]@) == k);
        let ghost before = ops@;
        match find_key(&fs_keys, &db_keys[j]) {
            Some(x) => {
                assert(info_keys(fs_files@)[x as int] == k);
                assert(info_keys(fs_files@).contains(k));
            },
            None => {
                assert forall|x: int| 0 <= x < fs_files.len() implies info_keys(fs_files@)[x] != k by {
                    assert(cview(fs_keys@[x]@) != cview(db_keys@[j as int]@));
                }
                assert(!info_keys(fs_files@).contains(k));
                ops.push(SyncOperation::Delete(db_state[j].path.clone()));
            },
        }
        assert(db_state@.take(j + 1).drop_last() =~= db_state@.take(j as int));
        assert(db_state@.take(j + 1).last() == db_state@[j as int]);
        assert(ops@ =~= after_files + delete_ops(db_state@.take(j + 1), fs_files@));
        j = j + 1;
    }
    assert(db_state@.take(db_state.len() as int) =~= db_state@);
    proof {
        lemma_sync_matches_whole_paths(db_state@, fs_files@);
    }
    ops
}

// ----- what a synchronisation achieves -----

/// The recorded (content, identity) hash texts, by path key.
pub open spec fn stored_hashes(db: Seq<FileMetadata>) -> Map<Seq<Seq<char>>, (Seq<char>, Seq<char>)> {
    Map::new(
        |k: Seq<Seq<char>>| meta_keys(db).contains(k),
        |k: Seq<Seq<char>>| (meta_for(db, k).content_hash@, meta_for(db, k).identity_hash@),
    )
}

/// The scanned (content, identity) hash texts, by path key.
pub open spec fn scanned_hashes(fs: Seq<FileInfo>) -> Map<Seq<Seq<char>>, (Seq<char>, Seq<char>)> {
    Map::new(
        |k: Seq<Seq<char>>| info_keys(fs).contains(k),
        |k: Seq<Seq<char>>| (info_for(fs, k).content_hash@, info_for(fs, k).identity_hash@),
    )
}

/// The hash texts by path key after one operation.
pub open spec fn apply_operation(
    m: Map<Seq<Seq<char>>, (Seq<char>, Seq<char>)>,
    op: SyncOperation,
) -> Map<Seq<Seq<char>>, (Seq<char>, Seq<char>)> {
    match op {
        SyncOperation::Insert(f) => m.insert(path_key(f.path@), (f.content_hash@, f.identity_hash@)),
        SyncOperation::Update(f) => m.insert(path_key(f.path@), (f.content_hash@, f.identity_hash@)),
        SyncOperation::Delete(p) => m.remove(path_key(p@)),
    }
}

/// The hash texts by path key after a sequence of operations, in order.
pub open spec fn apply_operations(
    m: Map<Seq<Seq<char>>, (Seq<char>, Seq<char>)>,
    ops: Seq<SyncOperation>,
) -> Map<Seq<Seq<char>>, (Seq<char>, Seq<char>)>
    decreases ops.len(),
{
    if ops.len() == 0 {
        m
    } else {
        apply_operation(apply_operations(m, ops.drop_last()), ops.last())
    }
}

proof fn lemma_apply_concat(
    m: Map<Seq<Seq<char>>, (Seq<char>, Seq<char>)>,
    a: Seq<SyncOperation>,
    b: Seq<SyncOperation>,
)
    ensures
        apply_operations(m, a + b) == apply_operations(apply_operations(m, a), b),
    decreases b.len(),
{
    if b.len() == 0 {
        assert(a + b =~= a);
    } else {
        lemma_apply_concat(m, a, b.drop_last());
        assert((a + b).drop_last() =~= a + b.drop_last());
        assert((a + b).last() == b.last());
    }
}

/// Where `s` has no duplicate, the index of an element is the one holding it.
proof fn lemma_index_of_unique<A>(s: Seq<A>, x: A, i: int)
    requires
        s.no_duplicates(),
        0 <= i < s.len(),
        s[i] == x,
    ensures
        s.index_of(x) == i,
{
    assert(s.contains(x));
    let j = s.index_of(x);
    assert(0 <= j < s.len() && s[j] == x);
}

proof fn lemma_info_keys_push(fs: Seq<FileInfo>, f: FileInfo)
    ensures
        info_keys(fs.push(f)) == info_keys(fs).push(path_key(f.path@)),
{
    assert(info_keys(fs.push(f)) =~= info_keys(fs).push(path_key(f.path@)));
}

proof fn lemma_meta_keys_push(db: Seq<FileMetadata>, m: FileMetadata)
    ensures
        meta_keys(db.push(m)) == meta_keys(db).push(path_key(m.path@)),
{
    assert(meta_keys(db.push(m)) =~= meta_keys(db).push(path_key(m.path@)));
}

/// After the inserts and updates, every scanned path holds its scanned hashes
/// and every other recorded path keeps its recorded ones.
proof fn lemma_file_stage(db: Seq<FileMetadata>, fs: Seq<FileInfo>)
    requires
        meta_keys(db).no_duplicates(),
        info_keys(fs).no_duplicates(),
    ensures
        apply_operations(stored_hashes(db), file_ops(db, fs)) == Map::new(
            |k: Seq<Seq<char>>| meta_keys(db).contains(k) || info_keys(fs).contains(k),
            |k: Seq<Seq<char>>|
                if info_keys(fs).contains(k) {
                    (info_for(fs, k).content_hash@, info_for(fs, k).identity_hash@)
                } else {
                    (meta_for(db, k).content_hash@, meta_for(db, k).identity_hash@)
                },
        ),
    decreases fs.len(),
{
    let target = Map::new(
        |k: Seq<Seq<char>>| meta_keys(db).contains(k) || info_keys(fs).contains(k),
        |k: Seq<Seq<char>>|
            if info_keys(fs).contains(k) {
                (info_for(fs, k).content_hash@, info_for(fs, k).identity_hash@)
            } else {
                (meta_for(db, k).content_hash@, meta_for(db, k).identity_hash@)
            },
    );
    if fs.len() == 0 {
        assert(info_keys(fs) =~= Seq::<Seq<Seq<char>>>::empty());
        assert(apply_operations(stored_hashes(db), file_ops(db, fs)) =~= target);
    } else {
        let p = fs.drop_last();
        let f = fs.last();
        let kf = path_key(f.path@);
        assert(fs == p.push(f));
        lemma_info_keys_push(p, f);
        let ks = info_keys(fs);
        let kp = info_keys(p);
        assert(kp.no_duplicates()) by {
            assert forall|i: int, j: int|
                0 <= i < kp.len() && 0 <= j < kp.len() && i != j implies kp[i] != kp[j] by {
                assert(kp[i] == ks[i] && kp[j] == ks[j]);
            }
        }
        assert(!kp.contains(kf)) by {
            if kp.contains(kf) {
                let i = kp.index_of(kf);
                assert(ks[i] == kf && ks[p.len() as int] == kf);
            }
        }
        lemma_file_stage(db, p);
        let prev = apply_operations(stored_hashes(db), file_ops(db, p));
        lemma_apply_concat(stored_hashes(db), file_ops(db, p), op_for_file(db, f));
        let pair_f = (f.content_hash@, f.identity_hash@);
        let now = apply_operations(stored_hashes(db), file_ops(db, fs));
        assert(now == apply_operations(prev, op_for_file(db, f)));
        if meta_keys(db).contains(kf) && !hashes_differ(meta_for(db, kf), f) {
            assert(op_for_file(db, f) =~= Seq::<SyncOperation>::empty());
            assert(now == prev);
            assert(prev[kf] == pair_f);
            assert(now =~= prev.insert(kf, pair_f));
        } else {
            let op = op_for_file(db, f)[0];
            assert(op_for_file(db, f).len() == 1);
            assert(op_for_file(db, f).drop_last() =~= Seq::<SyncOperation>::empty());
            assert(apply_operations(prev, Seq::<SyncOperation>::empty()) == prev);
            assert(op_for_file(db, f).last() == op);
            assert(now == apply_operation(prev, op));
            assert(now == prev.insert(kf, pair_f));
        }
        lemma_index_of_unique(ks, kf, p.len() as int);
        assert(info_for(fs, kf) == f);
        assert forall|k: Seq<Seq<char>>| kp.contains(k) implies info_for(fs, k) == info_for(p, k) by {
            let i = kp.index_of(k);
            assert(ks[i] == k);
            lemma_index_of_unique(ks, k, i);
        }
        assert forall|k: Seq<Seq<char>>| ks.contains(k) <==> (kp.contains(k) || k == kf) by {
            if ks.contains(k) {
                let i = ks.index_of(k);
                if i < p.len() {
                    assert(kp[i] == k);
                }
            }
            if kp.contains(k) {
                let i = kp.index_of(k);
                assert(ks[i] == k);
            }
            if k == kf {
                assert(ks[p.len() as int] == k);
            }
        }
        assert(now =~= target);
    }
}

/// The deletes remove exactly the recorded paths of `d` that the scan did not
/// find.
proof fn lemma_delete_stage(
    m: Map<Seq<Seq<char>>, (Seq<char>, Seq<char>)>,
    d: Seq<FileMetadata>,
    fs: Seq<FileInfo>,
)
    ensures
        apply_operations(m, delete_ops(d, fs)) == Map::new(
            |k: Seq<Seq<char>>|
                m.contains_key(k) && !(meta_keys(d).contains(k) && !info_keys(fs).contains(k)),
            |k: Seq<Seq<char>>| m[k],
        ),
    decreases d.len(),
{
    let target = Map::new(
        |k: Seq<Seq<char>>|
            m.contains_key(k) && !(meta_keys(d).contains(k) && !info_keys(fs).contains(k)),
        |k: Seq<Seq<char>>| m[k],
    );
    if d.len() == 0 {
        assert(meta_keys(d) =~= Seq::<Seq<Seq<char>>>::empty());
        assert(apply_operations(m, delete_ops(d, fs)) =~= target);
    } else {
        let p = d.drop_last();
        let x = d.last();
        let kx = path_key(x.path@);
        assert(d == p.push(x));
        lemma_meta_keys_push(p, x);
        lemma_delete_stage(m, p, fs);
        let tail = if info_keys(fs).contains(kx) {
            seq![]
        } else {
            seq![SyncOperation::Delete(x.path)]
        };
        lemma_apply_concat(m, delete_ops(p, fs), tail);
        let prev = apply_operations(m, delete_ops(p, fs));
        let now = apply_operations(m, delete_ops(d, fs));
        let kd = meta_keys(d);
        let kp = meta_keys(p);
        assert forall|k: Seq<Seq<char>>| kd.contains(k) <==> (kp.contains(k) || k == kx) by {
            if kd.contains(k) {
                let i = kd.index_of(k);
                if i < p.len() {
                    assert(kp[i] == k);
                }
            }
            if kp.contains(k) {
                let i = kp.index_of(k);
                assert(kd[i] == k);
            }
            if k == kx {
                assert(kd[p.len() as int] == k);
            }
        }
        if info_keys(fs).contains(kx) {
            assert(now == prev);
        } else {
            assert(tail.drop_last() =~= Seq::<SyncOperation>::empty());
            assert(apply_operations(prev, Seq::<SyncOperation>::empty()) == prev);
            assert(tail.last() == SyncOperation::Delete(x.path));
            assert(now == prev.remove(kx));
        }
        assert(now =~= target);
    }
}

/// Applying the operations of a synchronisation to what the database recorded
/// yields exactly what the scan found: the same paths, with the scanned hashes.
/// Paths are distinct on both sides, as the keys of a map and the entries of a
/// directory are.
pub proof fn lemma_sync_reproduces_scan(db: Seq<FileMetadata>, fs: Seq<FileInfo>)
    requires
        meta_keys(db).no_duplicates(),
        info_keys(fs).no_duplicates(),
    ensures
        apply_operations(stored_hashes(db), sync_operations(db, fs)) == scanned_hashes(fs),
{
    lemma_file_stage(db, fs);
    lemma_apply_concat(stored_hashes(db), file_ops(db, fs), delete_ops(db, fs));
    let mid = apply_operations(stored_hashes(db), file_ops(db, fs));
    lemma_delete_stage(mid, db, fs);
    assert(apply_operations(stored_hashes(db), sync_operations(db, fs)) =~= scanned_hashes(fs));
}

proof fn lemma_file_ops_empty(db: Seq<FileMetadata>, fs: Seq<FileInfo>)
    requires
        forall|i: int| 0 <= i < fs.len() ==> op_for_file(db, #[trigger] fs[i]).len() == 0,
    ensures
        file_ops(db, fs).len() == 0,
    decreases fs.len(),
{
    if fs.len() > 0 {
        lemma_file_ops_empty(db, fs.drop_last());
        assert(op_for_file(db, fs[fs.len() - 1]).len() == 0);
    }
}

proof fn lemma_delete_ops_empty(d: Seq<FileMetadata>, fs: Seq<FileInfo>)
    requires
        forall|i: int| 0 <= i < d.len() ==> info_keys(fs).contains(path_key((#[trigger] d[i]).path@)),
    ensures
        delete_ops(d, fs).len() == 0,
    decreases d.len(),
{
    if d.len() > 0 {
        lemma_delete_ops_empty(d.drop_last(), fs);
        assert(info_keys(fs).contains(path_key(d[d.len() - 1].path@)));
    }
}

/// Two paths are looked up under the same key exactly when they have the
/// same components: a file is found again by its whole path, never by its
/// name alone.
pub proof fn lemma_path_key_is_whole_path(p: Seq<char>, q: Seq<char>)
    ensures
        path_key(p) == path_key(q) <==> full_components(p) == full_components(q),
{
}

proof fn lemma_file_ops_has_op_for(db: Seq<FileMetadata>, fs: Seq<FileInfo>, i: int, k: int)
    requires
        0 <= i < fs.len(),
        0 <= k < op_for_file(db, fs[i]).len(),
    ensures
        file_ops(db, fs).contains(op_for_file(db, fs[i])[k]),
    decreases fs.len(),
{
    let before = file_ops(db, fs.drop_last());
    let last = op_for_file(db, fs.last());
    assert(file_ops(db, fs) == before + last);
    if i == fs.len() - 1 {
        assert((before + last)[before.len() + k] == last[k]);
    } else {
        assert(fs.drop_last()[i] == fs[i]);
        lemma_file_ops_has_op_for(db, fs.drop_last(), i, k);
        let w = choose|w: int| 0 <= w < before.len() && before[w] == op_for_file(db, fs[i])[k];
        assert((before + last)[w] == before[w]);
    }
}

proof fn lemma_delete_ops_has_delete(db: Seq<FileMetadata>, fs: Seq<FileInfo>, j: int)
    requires
        0 <= j < db.len(),
        !info_keys(fs).contains(path_key(db[j].path@)),
    ensures
        delete_ops(db, fs).contains(SyncOperation::Delete(db[j].path)),
    decreases db.len(),
{
    let before = delete_ops(db.drop_last(), fs);
    let last: Seq<SyncOperation> = if info_keys(fs).contains(path_key(db.last().path@)) {
        seq![]
    } else {
        seq![SyncOperation::Delete(db.last().path)]
    };
    assert(delete_ops(db, fs) == before + last);
    if j == db.len() - 1 {
        assert((before + last)[before.len() as int] == SyncOperation::Delete(db[j].path));
    } else {
        assert(db.drop_last()[j] == db[j]);
        lemma_delete_ops_has_delete(db.drop_last(), fs, j);
        let w = choose|w: int| 0 <= w < before.len() && before[w] == SyncOperation::Delete(db[j].path);
        assert((before + last)[w] == before[w]);
    }
}

/// Files are matched with their records by their whole path: a scanned file
/// whose components are those of no recorded path is inserted, and a recorded
/// path whose components are those of no scanned file is deleted.
pub proof fn lemma_sync_matches_whole_paths(db: Seq<FileMetadata>, fs: Seq<FileInfo>)
    ensures
        forall|i: int|
            0 <= i < fs.len() && (forall|j: int|
                0 <= j < db.len() ==> full_components((#[trigger] db[j]).path@) != full_components(
                    fs[i].path@,
                )) ==> sync_operations(db, fs).contains(SyncOperation::Insert(#[trigger] fs[i])),
        forall|j: int|
            0 <= j < db.len() && (forall|i: int|
                0 <= i < fs.len() ==> full_components((#[trigger] fs[i]).path@) != full_components(
                    db[j].path@,
                )) ==> sync_operations(db, fs).contains(SyncOperation::Delete((#[trigger] db[j]).path)),
{
    let ops = sync_operations(db, fs);
    let fo = file_ops(db, fs);
    let dl = delete_ops(db, fs);
    assert forall|i: int|
        0 <= i < fs.len() && (forall|j: int|
            0 <= j < db.len() ==> full_components((#[trigger] db[j]).path@) != full_components(
                fs[i].path@,
            )) implies ops.contains(SyncOperation::Insert(#[trigger] fs[i])) by {
        let k = path_key(fs[i].path@);
        if meta_keys(db).contains(k) {
            let j = choose|j: int| 0 <= j < meta_keys(db).len() && meta_keys(db)[j] == k;
            assert(meta_keys(db)[j] == path_key(db[j].path@));
            assert(full_components(db[j].path@) != full_components(fs[i].path@));
        }
        assert(op_for_file(db, fs[i]) == seq![SyncOperation::Insert(fs[i])]);
        lemma_file_ops_has_op_for(db, fs, i, 0);
        let w = choose|w: int| 0 <= w < fo.len() && fo[w] == SyncOperation::Insert(fs[i]);
        assert((fo + dl)[w] == fo[w]);
    }
    assert forall|j: int|
        0 <= j < db.len() && (forall|i: int|
            0 <= i < fs.len() ==> full_components((#[trigger] fs[i]).path@) != full_components(
                db[j].path@,
            )) implies ops.contains(SyncOperation::Delete((#[trigger] db[j]).path)) by {
        let k = path_key(db[j].path@);
        if info_keys(fs).contains(k) {
            let i = choose|i: int| 0 <= i < info_keys(fs).len() && info_keys(fs)[i] == k;
            assert(info_keys(fs)[i] == path_key(fs[i].path@));
            assert(full_components(fs[i].path@) != full_components(db[j].path@));
        }
        lemma_delete_ops_has_delete(db, fs, j);
        let w = choose|w: int| 0 <= w < dl.len() && dl[w] == SyncOperation::Delete(db[j].path);
        assert((fo + dl)[fo.len() + w] == dl[w]);
    }
}

/// A directory whose records already hold what the scan found calls for no
/// operation: where every recorded path was found by the scan and every
/// scanned file is recorded with the hashes it was scanned with (a path that
/// the scan lists more than once included), synchronising it changes nothing.
pub proof fn lemma_synced_directory_needs_nothing(db: Seq<FileMetadata>, fs: Seq<FileInfo>)
    requires
        forall|i: int| 0 <= i < db.len() ==> info_keys(fs).contains(path_key((#[trigger] db[i]).path@)),
        forall|i: int|
            0 <= i < fs.len() ==> {
                let k = path_key((#[trigger] fs[i]).path@);
                meta_keys(db).contains(k) && !hashes_differ(meta_for(db, k), fs[i])
            },
    ensures
        sync_operations(db, fs).len() == 0,
{
    assert forall|i: int| 0 <= i < fs.len() implies op_for_file(db, #[trigger] fs[i]).len() == 0 by {
        let k = path_key(fs[i].path@);
        assert(meta_keys(db).contains(k) && !hashes_differ(meta_for(db, k), fs[i]));
    }
    lemma_file_ops_empty(db, fs);
    lemma_delete_ops_empty(db, fs);
}

// ----- the recorded state of a directory -----

/// The comparison entry of a database row.
pub open spec fn metadata_of(r: FileRecord) -> FileMetadata {
    FileMetadata {
        id: r.id,
        path: r.path,
        content_hash: r.content_hash,
        identity_hash: r.identity_hash,
        file_system_id: r.file_system_id,
        updated_at: r.updated_at,
    }
}

/// Database entries by path key.
pub open spec fn metadata_map(s: Seq<FileMetadata>) -> Map<Seq<Seq<char>>, FileMetadata> {
    Map::new(|k: Seq<Seq<char>>| meta_keys(s).contains(k), |k: Seq<Seq<char>>| meta_for(s, k))
}

/// The entries of a map filled with the rows in order, a later row replacing
/// an earlier one under the same path key.
pub open spec fn rows_state(rows: Seq<FileRecord>) -> Map<Seq<Seq<char>>, FileMetadata>
    decreases rows.len(),
{
    if rows.len() == 0 {
        Map::empty()
    } else {
        rows_state(rows.drop_last()).insert(path_key(rows.last().path@), metadata_of(rows.last()))
    }
}

/// Adds `m` to `state`, replacing the entry under the same path key.
fn insert_entry(
    state: &mut Vec<FileMetadata>,
    keys: &mut Vec<Vec<Vec<char>>>,
    m: FileMetadata,
    km: Vec<Vec<char>>,
)
    requires
        meta_keys(old(state)@).no_duplicates(),
        old(keys).len() == old(state).len(),
        forall|j: int| 0 <= j < old(state).len() ==> cview((#[trigger] old(keys)@[j])@) == meta_keys(old(state)@)[j],
        cview(km@) == path_key(m.path@),
    ensures
        meta_keys(final(state)@).no_duplicates(),
        final(keys).len() == final(state).len(),
        forall|j: int| 0 <= j < final(state).len() ==> cview((#[trigger] final(keys)@[j])@) == meta_keys(final(state)@)[j],
        metadata_map(final(state)@) == metadata_map(old(state)@).insert(path_key(m.path@), m),
{
    let ghost e = state@;
    let ghost k = path_key(m.path@);
    let ghost ke = meta_keys(e);
    match find_key(keys, &km) {
        Some(j) => {
            state.set(j, m);
            let ghost e2 = state@;
            assert(meta_keys(e2) =~= ke.update(j as int, k));
            assert(ke[j as int] == k);
            assert(meta_keys(e2) =~= ke);
            assert forall|x: Seq<Seq<char>>| ke.contains(x) implies meta_for(e2, x) == (if x == k { m } else { meta_for(e, x) }) by {
                let i = ke.index_of(x);
                lemma_index_of_unique(ke, x, i);
                if x == k {
                    lemma_index_of_unique(ke, k, j as int);
                }
            }
            assert(ke.contains(k));
            assert(metadata_map(state@) =~= metadata_map(e).insert(k, m));
        },
        None => {
            assert forall|x: int| 0 <= x < e.len() implies ke[x] != k by {
                assert(cview(keys@[x]@) != cview(km@));
            }
            state.push(m);
            keys.push(km);
            proof {
                let e2 = state@;
                lemma_meta_keys_push(e, m);
                let k2 = meta_keys(e2);
                assert(k2.no_duplicates()) by {
                    assert forall|a: int, b: int| 0 <= a < k2.len() && 0 <= b < k2.len() && a != b implies k2[a] != k2[b] by {
                        if a < e.len() && b < e.len() {
                            assert(k2[a] == ke[a] && k2[b] == ke[b]);
                        }
                    }
                }
                lemma_index_of_unique(k2, k, e.len() as int);
                assert forall|x: Seq<Seq<char>>| k2.contains(x) <==> (ke.contains(x) || x == k) by {
                    if k2.contains(x) {
                        let i = k2.index_of(x);
                        if i < e.len() {
                            assert(ke[i] == x);
                        }
                    }
                    if ke.contains(x) {
                        let i = ke.index_of(x);
                        assert(k2[i] == x);
                    }
                    if x == k {
                        assert(k2[e.len() as int] == x);
                    }
                }
                assert forall|x: Seq<Seq<char>>| ke.contains(x) implies meta_for(e2, x) == meta_for(e, x) by {
                    let i = ke.index_of(x);
                    assert(k2[i] == x);
                    lemma_index_of_unique(k2, x, i);
                }
                assert(metadata_map(state@) =~= metadata_map(e).insert(k, m));
            }
        },
    }
}

/// Whether the row `r` lies in the directory `dir` or below it, component by
/// component: a row under `/a/bc` does not lie in `/a/b`.
pub open spec fn row_in_directory(r: FileRecord, dir: Seq<char>) -> bool {
    starts_with(r.path@, dir)
}

/// The rows among `rows` that lie in the directory `dir` or below it, in
/// order. Rows matched by a text prefix alone (`/a/bc` for `/a/b`) are left
/// out.
pub fn files_in_directory(rows: Vec<FileRecord>, dir: &str) -> (r: Vec<FileRecord>)
    ensures
        r@ == rows@.filter(|x: FileRecord| row_in_directory(x, dir@)),
{
    let ghost pred = |x: FileRecord| row_in_directory(x, dir@);
    let mut out: Vec<FileRecord> = Vec::new();
    let mut i: usize = 0;
    while i < rows.len()
        invariant
            i <= rows.len(),
            pred == (|x: FileRecord| row_in_directory(x, dir@)),
            out@ == rows@.take(i as int).filter(pred),
        decreases rows.len() - i,
    {
        proof {
            reveal(Seq::filter);
            assert(rows@.take(i + 1).drop_last() =~= rows@.take(i as int));
            assert(rows@.take(i + 1).last() == rows@[i as int]);
        }
        if path_starts_with(rows[i].path.as_str(), dir) {
            out.push(rows[i].clone());
        }
        i = i + 1;
    }
    assert(rows@.take(rows.len() as int) =~= rows@);
    out
}

/// The recorded state of a directory: the comparison entries of its database
/// rows, one per path, a later row replacing an earlier one under the same
/// path as in a map.
pub fn directory_state(files: Vec<FileRecord>) -> (r: Vec<FileMetadata>)
    ensures
        meta_keys(r@).no_duplicates(),
        metadata_map(r@) == rows_state(files@),
{
    let mut state: Vec<FileMetadata> = Vec::new();
    let mut keys: Vec<Vec<Vec<char>>> = Vec::new();
    let mut i: usize = 0;
    assert(metadata_map(state@) =~= rows_state(files@.take(0)));
    while i < files.len()
        invariant
            i <= files.len(),
            meta_keys(state@).no_duplicates(),
            keys.len() == state.len(),
            forall|j: int| 0 <= j < state.len() ==> cview((#[trigger] keys@[j])@) == meta_keys(state@)[j],
            metadata_map(state@) == rows_state(files@.take(i as int)),
        decreases files.len() - i,
    {
        let row = &files[i];
        let m = FileMetadata {
            id: row.id,
            path: row.path.clone(),
            content_hash: row.content_hash.clone(),
            identity_hash: row.identity_hash.clone(),
            file_system_id: row.file_system_id,
            updated_at: row.updated_at.clone(),
        };
        assert(m == metadata_of(files@[i as int]));
        let km = full_components_of(row.path.as_str());
        insert_entry(&mut state, &mut keys, m, km);
        assert(files@.take(i + 1).drop_last() =~= files@.take(i as int));
        assert(files@.take(i + 1).last() == files@[i as int]);
        i = i + 1;
    }
    assert(files@.take(files.len() as int) =~= files@);
    state
}

// ----- the report of a synchronisation -----

/// Report of a synchronisation.
pub struct SyncReport {
    pub files_scanned: usize,
    pub files_inserted: usize,
    pub files_updated: usize,
    pub files_deleted: usize,
    pub files_skipped: usize,
    pub errors: Vec<String>,
    /// Duration of the synchronisation in milliseconds.
    pub duration: u64,
}

impl SyncReport {
    /// An empty report: no file counted, no error, no time spent.
    pub fn new() -> (r: SyncReport)
        ensures
            r.files_scanned == 0,
            r.files_inserted == 0,
            r.files_updated == 0,
            r.files_deleted == 0,
            r.files_skipped == 0,
            r.errors@.len() == 0,
            r.duration == 0,
    {
        SyncReport {
            files_scanned: 0,
            files_inserted: 0,
            files_updated: 0,
            files_deleted: 0,
            files_skipped: 0,
            errors: Vec::new(),
            duration: 0,
        }
    }

    /// Number of database changes: inserts, updates and deletes.
    pub fn total_operations(&self) -> (total: usize)
        requires
            self.files_inserted + self.files_updated + self.files_deleted <= usize::MAX,
        ensures
            total == self.files_inserted + self.files_updated + self.files_deleted,
    {
        self.files_inserted + self.files_updated + self.files_deleted
    }
}

// ----- batches -----

/// A batch of operations sent to the database at once.
pub enum BatchAction {
    /// Files to insert or update.
    Upsert(Vec<FileInfo>),
    /// Paths to delete.
    Delete(Vec<String>),
}

/// A batch as values: whether it upserts, its files, its paths.
pub open spec fn batch_view(b: BatchAction) -> (bool, Seq<FileInfo>, Seq<String>) {
    match b {
        BatchAction::Upsert(v) => (true, v@, seq![]),
        BatchAction::Delete(v) => (false, seq![], v@),
    }
}

/// The batches still being filled, and those already sent, after `ops`: a
/// batch is sent as soon as it holds `batch_size` operations.
pub open spec fn batch_progress(ops: Seq<SyncOperation>, batch_size: nat) -> (
    Seq<FileInfo>,
    Seq<String>,
    Seq<(bool, Seq<FileInfo>, Seq<String>)>,
)
    decreases ops.len(),
{
    if ops.len() == 0 {
        (seq![], seq![], seq![])
    } else {
        let (ins, del, sent) = batch_progress(ops.drop_last(), batch_size);
        match ops.last() {
            SyncOperation::Delete(p) => {
                let del2 = del.push(p);
                if del2.len() >= batch_size {
                    (ins, seq![], sent.push((false, seq![], del2)))
                } else {
                    (ins, del2, sent)
                }
            },
            SyncOperation::Insert(f) => {
                let ins2 = ins.push(f);
                if ins2.len() >= batch_size {
                    (seq![], del, sent.push((true, ins2, seq![])))
                } else {
                    (ins2, del, sent)
                }
            },
            SyncOperation::Update(f) => {
                let ins2 = ins.push(f);
                if ins2.len() >= batch_size {
                    (seq![], del, sent.push((true, ins2, seq![])))
                } else {
                    (ins2, del, sent)
                }
            },
        }
    }
}

/// All batches of a synchronisation, in the order they are sent: the full
/// ones as they fill, then what is left of the upserts, then what is left of
/// the deletes.
pub open spec fn batch_plan(ops: Seq<SyncOperation>, batch_size: nat) -> Seq<(bool, Seq<FileInfo>, Seq<String>)> {
    let (ins, del, sent) = batch_progress(ops, batch_size);
    let with_ins = if ins.len() > 0 {
        sent.push((true, ins, seq![]))
    } else {
        sent
    };
    if del.len() > 0 {
        with_ins.push((false, seq![], del))
    } else {
        with_ins
    }
}

/// The batches in which the operations `ops` are sent to the database, a
/// batch holding at most `batch_size` operations (see [`batch_plan`]).
pub fn plan_batches(ops: Vec<SyncOperation>, batch_size: usize) -> (r: Vec<BatchAction>)
    ensures
        r@.map_values(|b: BatchAction| batch_view(b)) == batch_plan(ops@, batch_size as nat),
{
    let mut sent: Vec<BatchAction> = Vec::new();
    let mut ins: Vec<FileInfo> = Vec::new();
    let mut del: Vec<String> = Vec::new();
    let mut i: usize = 0;
    while i < ops.len()
        invariant
            i <= ops.len(),
            batch_progress(ops@.take(i as int), batch_size as nat) == (
                ins@,
                del@,
                sent@.map_values(|b: BatchAction| batch_view(b)),
            ),
        decreases ops.len() - i,
    {
        let ghost prev_sent = sent@.map_values(|b: BatchAction| batch_view(b));
        assert(ops@.take(i + 1).drop_last() =~= ops@.take(i as int));
        assert(ops@.take(i + 1).last() == ops@[i as int]);
        match &ops[i] {
            SyncOperation::Delete(p) => {
                del.push(p.clone());
                if del.len() >= batch_size {
                    let full = del;
                    del = Vec::new();
                    sent.push(BatchAction::Delete(full));
                    assert(sent@.map_values(|b: BatchAction| batch_view(b)) =~= prev_sent.push(
                        (false, seq![], full@),
                    ));
                }
            },
            SyncOperation::Insert(f) => {
                ins.push(f.clone());
                if ins.len() >= batch_size {
                    let full = ins;
                    ins = Vec::new();
                    sent.push(BatchAction::Upsert(full));
                    assert(sent@.map_values(|b: BatchAction| batch_view(b)) =~= prev_sent.push(
                        (true, full@, seq![]),
                    ));
                }
            },
            SyncOperation::Update(f) => {
                ins.push(f.clone());
                if ins.len() >= batch_size {
                    let full = ins;
                    ins = Vec::new();
                    sent.push(BatchAction::Upsert(full));
                    assert(sent@.map_values(|b: BatchAction| batch_view(b)) =~= prev_sent.push(
                        (true, full@, seq![]),
                    ));
                }
            },
        }
        assert(ins@ =~= batch_progress(ops@.take(i + 1), batch_size as nat).0);
        assert(del@ =~= batch_progress(ops@.take(i + 1), batch_size as nat).1);
        assert(sent@.map_values(|b: BatchAction| batch_view(b)) =~= batch_progress(
            ops@.take(i + 1),
            batch_size as nat,
        ).2);
        i = i + 1;
    }
    assert(ops@.take(ops.len() as int) =~= ops@);
    if ins.len() > 0 {
        sent.push(BatchAction::Upsert(ins));
    }
    if del.len() > 0 {
        sent.push(BatchAction::Delete(del));
    }
    assert(sent@.map_values(|b: BatchAction| batch_view(b)) =~= batch_plan(ops@, batch_size as nat));
    sent
}

/// The files of the inserts and updates among `ops`, in order.
pub open spec fn upsert_items(ops: Seq<SyncOperation>) -> Seq<FileInfo>
    decreases ops.len(),
{
    if ops.len() == 0 {
        seq![]
    } else {
        upsert_items(ops.drop_last()) + match ops.last() {
            SyncOperation::Insert(f) => seq![f],
            SyncOperation::Update(f) => seq![f],
            SyncOperation::Delete(_) => seq![],
        }
    }
}

/// The paths of the deletes among `ops`, in order.
pub open spec fn delete_items(ops: Seq<SyncOperation>) -> Seq<String>
    decreases ops.len(),
{
    if ops.len() == 0 {
        seq![]
    } else {
        delete_items(ops.drop_last()) + match ops.last() {
            SyncOperation::Delete(p) => seq![p],
            _ => seq![],
        }
    }
}

/// The files of all batches, batch after batch.
pub open spec fn flat_upserts(b: Seq<(bool, Seq<FileInfo>, Seq<String>)>) -> Seq<FileInfo>
    decreases b.len(),
{
    if b.len() == 0 {
        seq![]
    } else {
        flat_upserts(b.drop_last()) + b.last().1
    }
}

/// The paths of all batches, batch after batch.
pub open spec fn flat_deletes(b: Seq<(bool, Seq<FileInfo>, Seq<String>)>) -> Seq<String>
    decreases b.len(),
{
    if b.len() == 0 {
        seq![]
    } else {
        flat_deletes(b.drop_last()) + b.last().2
    }
}

/// The largest number of operations a batch may hold: the batch size, and at
/// least one.
pub open spec fn batch_limit(batch_size: nat) -> nat {
    if batch_size == 0 {
        1
    } else {
        batch_size
    }
}

/// Each batch is of one kind, is not empty and holds at most the limit.
pub open spec fn well_sized(b: Seq<(bool, Seq<FileInfo>, Seq<String>)>, batch_size: nat) -> bool {
    forall|i: int|
        0 <= i < b.len() ==> {
            let x = #[trigger] b[i];
            if x.0 {
                x.2.len() == 0 && 1 <= x.1.len() <= batch_limit(batch_size)
            } else {
                x.1.len() == 0 && 1 <= x.2.len() <= batch_limit(batch_size)
            }
        }
}

proof fn lemma_batch_progress(ops: Seq<SyncOperation>, batch_size: nat)
    ensures
        ({
            let (ins, del, sent) = batch_progress(ops, batch_size);
            &&& flat_upserts(sent) + ins == upsert_items(ops)
            &&& flat_deletes(sent) + del == delete_items(ops)
            &&& well_sized(sent, batch_size)
            &&& ins.len() < batch_limit(batch_size)
            &&& del.len() < batch_limit(batch_size)
        }),
    decreases ops.len(),
{
    if ops.len() == 0 {
        assert(flat_upserts(Seq::<(bool, Seq<FileInfo>, Seq<String>)>::empty()) + Seq::<FileInfo>::empty() =~= upsert_items(ops));
        assert(flat_deletes(Seq::<(bool, Seq<FileInfo>, Seq<String>)>::empty()) + Seq::<String>::empty() =~= delete_items(ops));
    } else {
        lemma_batch_progress(ops.drop_last(), batch_size);
        let (ins, del, sent) = batch_progress(ops.drop_last(), batch_size);
        let (ins2, del2, sent2) = batch_progress(ops, batch_size);
        match ops.last() {
            SyncOperation::Delete(p) => {
                assert(upsert_items(ops) =~= upsert_items(ops.drop_last()));
                assert(delete_items(ops) =~= delete_items(ops.drop_last()) + seq![p]);
                if del.push(p).len() >= batch_size {
                    let x = (false, Seq::<FileInfo>::empty(), del.push(p));
                    assert(sent2 == sent.push(x));
                    assert(sent.push(x).drop_last() =~= sent);
                    assert(flat_upserts(sent2) =~= flat_upserts(sent));
                    assert(flat_deletes(sent2) =~= flat_deletes(sent) + del.push(p));
                    assert(flat_deletes(sent2) + del2 =~= delete_items(ops));
                    assert(flat_upserts(sent2) + ins2 =~= upsert_items(ops));
                    assert forall|i: int| 0 <= i < sent2.len() implies #[trigger] sent2[i] == (if i < sent.len() { sent[i] } else { x }) by {}
                } else {
                    assert(flat_deletes(sent2) + del2 =~= delete_items(ops));
                }
            },
            SyncOperation::Insert(f) => {
                assert(upsert_items(ops) =~= upsert_items(ops.drop_last()) + seq![f]);
                assert(delete_items(ops) =~= delete_items(ops.drop_last()));
                if ins.push(f).len() >= batch_size {
                    let x = (true, ins.push(f), Seq::<String>::empty());
                    assert(sent2 == sent.push(x));
                    assert(sent.push(x).drop_last() =~= sent);
                    assert(flat_deletes(sent2) =~= flat_deletes(sent));
                    assert(flat_upserts(sent2) =~= flat_upserts(sent) + ins.push(f));
                    assert(flat_upserts(sent2) + ins2 =~= upsert_items(ops));
                    assert(flat_deletes(sent2) + del2 =~= delete_items(ops));
                    assert forall|i: int| 0 <= i < sent2.len() implies #[trigger] sent2[i] == (if i < sent.len() { sent[i] } else { x }) by {}
                } else {
                    assert(flat_upserts(sent2) + ins2 =~= upsert_items(ops));
                }
            },
            SyncOperation::Update(f) => {
                assert(upsert_items(ops) =~= upsert_items(ops.drop_last()) + seq![f]);
                assert(delete_items(ops) =~= delete_items(ops.drop_last()));
                if ins.push(f).len() >= batch_size {
                    let x = (true, ins.push(f), Seq::<String>::empty());
                    assert(sent2 == sent.push(x));
                    assert(sent.push(x).drop_last() =~= sent);
                    assert(flat_deletes(sent2) =~= flat_deletes(sent));
                    assert(flat_upserts(sent2) =~= flat_upserts(sent) + ins.push(f));
                    assert(flat_upserts(sent2) + ins2 =~= upsert_items(ops));
                    assert(flat_deletes(sent2) + del2 =~= delete_items(ops));
                    assert forall|i: int| 0 <= i < sent2.len() implies #[trigger] sent2[i] == (if i < sent.len() { sent[i] } else { x }) by {}
                } else {
                    assert(flat_upserts(sent2) + ins2 =~= upsert_items(ops));
                }
            },
        }
    }
}

/// Every operation is sent exactly once and in order: the batches hold, one
/// after the other, the files of all inserts and updates and the paths of all
/// deletes; each batch is of one kind, not empty, and holds at most the batch
/// size (at least one).
pub proof fn lemma_batches_cover_operations(ops: Seq<SyncOperation>, batch_size: nat)
    ensures
        flat_upserts(batch_plan(ops, batch_size)) == upsert_items(ops),
        flat_deletes(batch_plan(ops, batch_size)) == delete_items(ops),
        well_sized(batch_plan(ops, batch_size), batch_size),
{
    lemma_batch_progress(ops, batch_size);
    let (ins, del, sent) = batch_progress(ops, batch_size);
    let with_ins = if ins.len() > 0 {
        sent.push((true, ins, seq![]))
    } else {
        sent
    };
    if ins.len() > 0 {
        let x = (true, ins, Seq::<String>::empty());
        assert(sent.push(x).drop_last() =~= sent);
        assert(flat_upserts(with_ins) =~= flat_upserts(sent) + ins);
        assert(flat_deletes(with_ins) =~= flat_deletes(sent));
        assert forall|i: int| 0 <= i < with_ins.len() implies #[trigger] with_ins[i] == (if i < sent.len() { sent[i] } else { x }) by {}
    } else {
        assert(flat_upserts(with_ins) =~= flat_upserts(sent) + ins);
    }
    assert(flat_deletes(with_ins) == flat_deletes(sent));
    let plan = batch_plan(ops, batch_size);
    if del.len() > 0 {
        let y = (false, Seq::<FileInfo>::empty(), del);
        assert(plan == with_ins.push(y));
        assert(with_ins.push(y).drop_last() =~= with_ins);
        assert(flat_deletes(plan) =~= flat_deletes(with_ins) + del);
        assert(flat_upserts(plan) =~= flat_upserts(with_ins));
        assert forall|i: int| 0 <= i < plan.len() implies #[trigger] plan[i] == (if i < with_ins.len() { with_ins[i] } else { y }) by {}
    } else {
        assert(flat_deletes(plan) =~= flat_deletes(with_ins) + del);
    }
}

// ----- results of the database -----

/// How many files a batch upsert inserted and how many it updated.
pub struct UpsertFileBatchReport {
    pub file_inserted: usize,
    pub file_updated: usize,
}

/// How many of `existed` are `true` (`want`) or `false` (`!want`).
pub open spec fn count_flags(existed: Seq<bool>, want: bool) -> nat
    decreases existed.len(),
{
    if existed.len() == 0 {
        0
    } else {
        count_flags(existed.drop_last(), want) + if existed.last() == want {
            1nat
        } else {
            0nat
        }
    }
}

proof fn lemma_count_flags_total(existed: Seq<bool>)
    ensures
        count_flags(existed, true) + count_flags(existed, false) == existed.len(),
    decreases existed.len(),
{
    if existed.len() > 0 {
        lemma_count_flags_total(existed.drop_last());
    }
}

/// How many of `existed` are new rows (`false`) and how many existing ones
/// (`true`).
fn count_new_and_existing(existed: &Vec<bool>) -> (r: (usize, usize))
    ensures
        r.0 == count_flags(existed@, false),
        r.1 == count_flags(existed@, true),
{
    let mut fresh: usize = 0;
    let mut held: usize = 0;
    let mut i: usize = 0;
    while i < existed.len()
        invariant
            i <= existed.len(),
            fresh == count_flags(existed@.take(i as int), false),
            held == count_flags(existed@.take(i as int), true),
        decreases existed.len() - i,
    {
        proof {
            lemma_count_flags_total(existed@.take(i as int));
        }
        assert(existed@.take(i + 1).drop_last() =~= existed@.take(i as int));
        if existed[i] {
            held = held + 1;
        } else {
            fresh = fresh + 1;
        }
        i = i + 1;
    }
    assert(existed@.take(existed.len() as int) =~= existed@);
    (fresh, held)
}

/// The report of a batch upsert of files, given for each file whether the
/// database already held its path. As the batch upsert of files reports it, a
/// row the database already held (and that was updated) counts under
/// `file_inserted`, and a new row (that was inserted) under `file_updated`.
pub fn count_upserts(existed: &Vec<bool>) -> (r: UpsertFileBatchReport)
    ensures
        r.file_inserted == count_flags(existed@, true),
        r.file_updated == count_flags(existed@, false),
{
    let (fresh, held) = count_new_and_existing(existed);
    UpsertFileBatchReport { file_inserted: held, file_updated: fresh }
}

/// How many folders a batch upsert inserted and how many it updated.
pub struct UpsertFolderBatchReport {
    pub folder_inserted: usize,
    pub folder_updated: usize,
}

/// The report of a batch upsert of folders, given for each folder whether the
/// database already held its path (then it was updated) or not (then it was
/// inserted).
pub fn count_folder_upserts(existed: &Vec<bool>) -> (r: UpsertFolderBatchReport)
    ensures
        r.folder_inserted == count_flags(existed@, false),
        r.folder_updated == count_flags(existed@, true),
{
    let (fresh, held) = count_new_and_existing(existed);
    UpsertFolderBatchReport { folder_inserted: fresh, folder_updated: held }
}

/// The message recorded when a batch upsert fails.
pub open spec fn upsert_failure_text(e: DbError) -> Seq<char> {
    "Failed to execute insert batch: "@ + e.spec_name()
}

/// The message recorded when a batch delete fails.
pub open spec fn delete_failure_text(e: DbError) -> Seq<char> {
    "Failed to execute delete batch: "@ + e.spec_name()
}

impl SyncReport {
    /// Counts the outcome of a batch upsert: on success every file written,
    /// inserted or updated, is counted under `files_inserted`; on failure the
    /// error is recorded.
    pub fn record_upsert(&mut self, result: Result<UpsertFileBatchReport, DbError>)
        requires
            result matches Ok(b) ==> old(self).files_inserted + b.file_inserted + b.file_updated
                <= usize::MAX,
        ensures
            final(self).files_scanned == old(self).files_scanned,
            final(self).files_updated == old(self).files_updated,
            final(self).files_deleted == old(self).files_deleted,
            final(self).files_skipped == old(self).files_skipped,
            final(self).duration == old(self).duration,
            match result {
                Ok(b) => {
                    &&& final(self).files_inserted == old(self).files_inserted + b.file_inserted
                        + b.file_updated
                    &&& final(self).errors@ == old(self).errors@
                },
                Err(e) => {
                    &&& final(self).files_inserted == old(self).files_inserted
                    &&& final(self).errors@.len() == old(self).errors@.len() + 1
                    &&& final(self).errors@.drop_last() == old(self).errors@
                    &&& final(self).errors@.last()@ == upsert_failure_text(e)
                },
            },
    {
        match result {
            Ok(b) => {
                self.files_inserted = self.files_inserted + b.file_inserted + b.file_updated;
            },
            Err(e) => {
                let msg = String::from_str("Failed to execute insert batch: ").concat(e.name().as_str());
                self.errors.push(msg);
            },
        }
    }

    /// Counts the outcome of a batch delete: on success the deleted rows
    /// under `files_deleted`; on failure the error is recorded.
    pub fn record_delete(&mut self, result: Result<usize, DbError>)
        requires
            result matches Ok(n) ==> old(self).files_deleted + n <= usize::MAX,
        ensures
            final(self).files_scanned == old(self).files_scanned,
            final(self).files_inserted == old(self).files_inserted,
            final(self).files_updated == old(self).files_updated,
            final(self).files_skipped == old(self).files_skipped,
            final(self).duration == old(self).duration,
            match result {
                Ok(n) => {
                    &&& final(self).files_deleted == old(self).files_deleted + n
                    &&& final(self).errors@ == old(self).errors@
                },
                Err(e) => {
                    &&& final(self).files_deleted == old(self).files_deleted
                    &&& final(self).errors@.len() == old(self).errors@.len() + 1
                    &&& final(self).errors@.drop_last() == old(self).errors@
                    &&& final(self).errors@.last()@ == delete_failure_text(e)
                },
            },
    {
        match result {
            Ok(n) => {
                self.files_deleted = self.files_deleted + n;
            },
            Err(e) => {
                let msg = String::from_str("Failed to execute delete batch: ").concat(e.name().as_str());
                self.errors.push(msg);
            },
        }
    }
}

} // verus!
