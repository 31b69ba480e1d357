//! The file watcher: which events concern files and which folders, what each
//! asks of the database, and the list of watched paths.
use vstd::prelude::*;
use vstd::string::StringExecFns;
use crate::errors::{AppError, AppErrorKind, DbError, WatcherError};
use crate::hashing::{digest_text, digest_to_string, FileHash, FolderHash};
use crate::library::CanonPath;
use crate::paths::{components_eq, cview, full_components, full_components_of, path_file_name};
use crate::scanner::recorded_name;

verus! {

// ----- events -----

/// What was created.
#[derive(Debug, Clone, Copy, PartialEq, Eq, Structural)]
pub enum CreateKind {
    Any,
    File,
    Folder,
    Other,
}

/// What was removed.
#[derive(Debug, Clone, Copy, PartialEq, Eq, Structural)]
pub enum RemoveKind {
    Any,
    File,
    Folder,
    Other,
}

/// The kind of a file system event, as the watcher reports it.
#[derive(Debug, Clone, Copy, PartialEq, Eq, Structural)]
pub enum EventKind {
    Any,
    Access,
    Create(CreateKind),
    Modify,
    Remove(RemoveKind),
    Other,
}

/// Where an event goes.
#[derive(Debug, Clone, Copy, PartialEq, Eq, Structural)]
pub enum EventRoute {
    /// It concerns a folder.
    Folder,
    /// It concerns a file.
    File,
    /// It is dropped.
    Ignore,
}

/// The route of an event whose last path is a directory (`is_dir`) or not:
/// events on directories, and creations and removals of folders, concern
/// folders; other accesses are dropped; the rest concern files.
pub open spec fn spec_route(is_dir: bool, kind: EventKind) -> EventRoute {
    if is_dir || kind == EventKind::Create(CreateKind::Folder) || kind == EventKind::Remove(
        RemoveKind::Folder,
    ) {
        EventRoute::Folder
    } else if kind == EventKind::Access {
        EventRoute::Ignore
    } else {
        EventRoute::File
    }
}

/// The error of an event without paths.
pub open spec fn no_path_error(e: AppError) -> bool {
    &&& e.carries(AppErrorKind::FileError, "Could not extract last paths. Were paths even provided?"@)
    &&& e matches AppError::Categorized { source: None, .. }
}

/// The route of an event with the paths `paths` and the kind `kind`.
/// `last_is_dir` says whether the last path is a directory on disk; without a
/// path the event is refused.
pub fn route_event(paths: &Vec<String>, last_is_dir: bool, kind: EventKind) -> (r: Result<
    EventRoute,
    AppError,
>)
    ensures
        paths.len() == 0 ==> (r matches Err(e) && no_path_error(e)),
        paths.len() > 0 ==> r == Ok::<EventRoute, AppError>(spec_route(last_is_dir, kind)),
{
    if paths.len() == 0 {
        return Err(
            AppError::new(
                AppErrorKind::FileError,
                String::from_str("Could not extract last paths. Were paths even provided?"),
            ),
        );
    }
    if last_is_dir || kind == EventKind::Create(CreateKind::Folder) || kind == EventKind::Remove(
        RemoveKind::Folder,
    ) {
        Ok(EventRoute::Folder)
    } else if kind == EventKind::Access {
        Ok(EventRoute::Ignore)
    } else {
        Ok(EventRoute::File)
    }
}

/// Whether an event is hashed before it is passed on: all but the removal of
/// a file (for a file event) or of a folder (for a folder event).
pub fn event_needs_hash(is_folder: bool, kind: EventKind) -> (r: bool)
    ensures
        r == if is_folder {
            kind != EventKind::Remove(RemoveKind::Folder)
        } else {
            kind != EventKind::Remove(RemoveKind::File)
        },
{
    if is_folder {
        kind != EventKind::Remove(RemoveKind::Folder)
    } else {
        kind != EventKind::Remove(RemoveKind::File)
    }
}

/// An event on a file, with the hashes of the file where it was hashed.
pub struct FileEvent {
    pub paths: Vec<String>,
    pub kind: EventKind,
    pub hash: Option<FileHash>,
}

/// An event on a folder, with the hashes of the folder where it was hashed.
pub struct FolderEvent {
    pub paths: Vec<String>,
    pub kind: EventKind,
    pub hash: Option<FolderHash>,
}

impl FileEvent {
    pub fn new(kind: EventKind, paths: Vec<String>, hash: Option<FileHash>) -> (r: FileEvent)
        ensures
            r.kind == kind,
            r.paths == paths,
            r.hash == hash,
    {
        FileEvent { paths, kind, hash }
    }
}

impl FolderEvent {
    pub fn new(kind: EventKind, paths: Vec<String>, hash: Option<FolderHash>) -> (r: FolderEvent)
        ensures
            r.kind == kind,
            r.paths == paths,
            r.hash == hash,
    {
        FolderEvent { paths, kind, hash }
    }
}

/// An event as it reaches the database: on a file or on a folder.
pub struct FSEvent {
    pub file_event: Option<FileEvent>,
    pub folder_event: Option<FolderEvent>,
}

impl FSEvent {
    pub fn from_file_event(file_event: FileEvent) -> (r: FSEvent)
        ensures
            r.file_event == Some(file_event),
            r.folder_event is None,
    {
        FSEvent { file_event: Some(file_event), folder_event: None }
    }

    pub fn from_folder_event(folder_event: FolderEvent) -> (r: FSEvent)
        ensures
            r.file_event is None,
            r.folder_event == Some(folder_event),
    {
        FSEvent { file_event: None, folder_event: Some(folder_event) }
    }
}

/// What an event asks of the database.
pub enum DbAction {
    /// Insert or update the file of the event.
    UpsertFile,
    /// Delete the files at these paths.
    DeleteFiles(Vec<String>),
    /// Insert or update the folder of the event.
    UpsertFolder,
    /// Delete the folders at these paths.
    DeleteFolders(Vec<String>),
    /// Nothing.
    Ignore,
}

/// Whether a kind is a creation or a modification.
pub open spec fn is_write(kind: EventKind) -> bool {
    kind is Create || kind is Modify
}

/// The error of an event that is neither on a file nor on a folder, and of a
/// database operation that failed for an event.
pub open spec fn store_error(e: AppError) -> bool {
    e.carries(AppErrorKind::FileError, "Failed to upsert file"@)
}

/// The cause given for an event that carries neither a file nor a folder
/// event.
pub open spec fn no_event_text() -> Seq<char> {
    "Could not extract FolderEvent or FileEvent"@
}

/// What `event` asks of the database: its file event is looked at first,
/// then its folder event. Creations and modifications are upserted, removals
/// deleted, other kinds ignored.
pub fn database_action(event: &FSEvent) -> (r: Result<DbAction, AppError>)
    ensures
        match event.file_event {
            Some(f) => if is_write(f.kind) {
                r matches Ok(a) && a is UpsertFile
            } else if f.kind is Remove {
                r matches Ok(a) && a matches DbAction::DeleteFiles(p) && p@ == f.paths@
            } else {
                r matches Ok(a) && a is Ignore
            },
            None => match event.folder_event {
                Some(f) => if is_write(f.kind) {
                    r matches Ok(a) && a is UpsertFolder
                } else if f.kind is Remove {
                    r matches Ok(a) && a matches DbAction::DeleteFolders(p) && p@ == f.paths@
                } else {
                    r matches Ok(a) && a is Ignore
                },
                None => r matches Err(e) && store_error(e) && (e matches AppError::Categorized {
                    source: Some(s),
                    ..
                } && s@ == no_event_text()),
            },
        },
{
    match &event.file_event {
        Some(f) => match f.kind {
            EventKind::Create(_) | EventKind::Modify => Ok(DbAction::UpsertFile),
            EventKind::Remove(_) => Ok(DbAction::DeleteFiles(clone_paths(&f.paths))),
            _ => Ok(DbAction::Ignore),
        },
        None => match &event.folder_event {
            Some(f) => match f.kind {
                EventKind::Create(_) | EventKind::Modify => Ok(DbAction::UpsertFolder),
                EventKind::Remove(_) => Ok(DbAction::DeleteFolders(clone_paths(&f.paths))),
                _ => Ok(DbAction::Ignore),
            },
            None => Err(store_failure(Some(String::from_str("Could not extract FolderEvent or FileEvent")))),
        },
    }
}

/// The error reported when the database could not store an event; `cause`
/// is the text of the underlying error, where there is one.
pub fn store_failure(cause: Option<String>) -> (e: AppError)
    ensures
        store_error(e),
        e matches AppError::Categorized { source, .. } && source == cause,
{
    AppError::Categorized {
        kind: AppErrorKind::FileError,
        message: String::from_str("Failed to upsert file"),
        source: cause,
    }
}

/// The error reported when the database failed on an event.
pub fn database_failure(e: DbError) -> (r: AppError)
    ensures
        store_error(r),
        r matches AppError::Categorized { source: Some(s), .. } && s@ == e.spec_text(),
{
    store_failure(Some(e.to_string()))
}

fn clone_paths(v: &Vec<String>) -> (r: Vec<String>)
    ensures
        r@ == v@,
{
    let mut out: Vec<String> = Vec::new();
    let mut i: usize = 0;
    while i < v.len()
        invariant
            i <= v.len(),
            out@ == v@.take(i as int),
        decreases v.len() - i,
    {
        out.push(v[i].clone());
        assert(v@.take(i + 1) =~= v@.take(i as int).push(v@[i as int]));
        i = i + 1;
    }
    assert(v@.take(v.len() as int) =~= v@);
    out
}

// ----- rows written for events -----

/// The columns of the row that a file event writes.
pub struct EventFileRow {
    pub name: String,
    pub path: String,
    pub content_hash: String,
    pub identity_hash: String,
}

/// The row that a hashed file event writes: the file at its last path, with
/// its name and the text of its digests. An event without paths is refused.
pub fn file_row_from_event(event: &FileEvent) -> (r: Result<EventFileRow, DbError>)
    requires
        event.hash is Some,
    ensures
        event.paths.len() == 0 ==> r == Err::<EventFileRow, DbError>(DbError::ConfigurationError),
        event.paths.len() > 0 ==> (r matches Ok(row) && {
            let p = event.paths@.last()@;
            let h = event.hash->0;
            &&& row.path@ == p
            &&& row.name@ == recorded_name(p)
            &&& row.content_hash@ == digest_text(h.content_hash@)
            &&& row.identity_hash@ == digest_text(h.identity_hash@)
        }),
{
    if event.paths.len() == 0 {
        return Err(DbError::ConfigurationError);
    }
    let path = &event.paths[event.paths.len() - 1];
    let name = match path_file_name(path.as_str()) {
        Some(n) => n,
        None => String::from_str("unknown"),
    };
    let h = event.hash.as_ref().unwrap();
    Ok(
        EventFileRow {
            name,
            path: path.clone(),
            content_hash: digest_to_string(&h.content_hash),
            identity_hash: digest_to_string(&h.identity_hash),
        },
    )
}

/// The columns of the row that a folder event writes.
pub struct EventFolderRow {
    pub name: String,
    pub path: String,
    pub content_hash: String,
    pub identity_hash: String,
    pub structure_hash: String,
}

/// The row that a hashed folder event writes: the folder at its last path,
/// with its name and the text of its digests. An event without paths is
/// refused.
pub fn folder_row_from_event(event: &FolderEvent) -> (r: Result<EventFolderRow, DbError>)
    requires
        event.hash is Some,
    ensures
        event.paths.len() == 0 ==> r == Err::<EventFolderRow, DbError>(DbError::ConfigurationError),
        event.paths.len() > 0 ==> (r matches Ok(row) && {
            let p = event.paths@.last()@;
            let h = event.hash->0;
            &&& row.path@ == p
            &&& row.name@ == recorded_name(p)
            &&& row.content_hash@ == digest_text(h.content_hash@)
            &&& row.identity_hash@ == digest_text(h.identity_hash@)
            &&& row.structure_hash@ == digest_text(h.structure_hash@)
        }),
{
    if event.paths.len() == 0 {
        return Err(DbError::ConfigurationError);
    }
    let path = &event.paths[event.paths.len() - 1];
    let name = match path_file_name(path.as_str()) {
        Some(n) => n,
        None => String::from_str("unknown"),
    };
    let h = event.hash.as_ref().unwrap();
    Ok(
        EventFolderRow {
            name,
            path: path.clone(),
            content_hash: digest_to_string(&h.content_hash),
            identity_hash: digest_to_string(&h.identity_hash),
            structure_hash: digest_to_string(&h.structure_hash),
        },
    )
}

// ----- the watch list -----

/// The key under which a watched path is held: its components, as `PathBuf`
/// compares paths.
pub open spec fn watch_keys(v: Seq<CanonPath>) -> Seq<Seq<Seq<char>>> {
    v.map_values(|p: CanonPath| full_components(p@))
}

/// The paths being watched, once the first one was added.
pub struct WatchList {
    paths: Option<Vec<CanonPath>>,
}

impl View for WatchList {
    type V = Option<Set<Seq<Seq<char>>>>;

    /// The keys of the watched paths, or `None` before any was added.
    closed spec fn view(&self) -> Option<Set<Seq<Seq<char>>>> {
        match self.paths {
            Some(v) => Some(watch_keys(v@).to_set()),
            None => None,
        }
    }
}

/// The watched keys after watching a path with key `k`.
pub open spec fn after_watch(w: Option<Set<Seq<Seq<char>>>>, k: Seq<Seq<char>>) -> Option<Set<Seq<Seq<char>>>> {
    match w {
        Some(s) => Some(s.insert(k)),
        None => Some(Set::empty().insert(k)),
    }
}

/// The watched keys after unwatching a path with key `k`, and whether that
/// succeeded: only a watched path can be unwatched.
pub open spec fn after_unwatch(w: Option<Set<Seq<Seq<char>>>>, k: Seq<Seq<char>>) -> (Option<Set<Seq<Seq<char>>>>, bool) {
    match w {
        Some(s) => if s.contains(k) {
            (Some(s.remove(k)), true)
        } else {
            (w, false)
        },
        None => (w, false),
    }
}

fn key_index(v: &Vec<CanonPath>, k: &Vec<Vec<char>>) -> (r: Option<usize>)
    ensures
        match r {
            Some(j) => j < v.len() && watch_keys(v@)[j as int] == cview(k@),
            None => !watch_keys(v@).contains(cview(k@)),
        },
{
    let mut j: usize = 0;
    while j < v.len()
        invariant
            j <= v.len(),
            forall|i: int| 0 <= i < j ==> watch_keys(v@)[i] != cview(k@),
        decreases v.len() - j,
    {
        let p = v[j].as_str();
        let s = match p {
            Ok(s) => s,
            Err(_) => {
                assert(false);
                return None;
            },
        };
        let kj = full_components_of(s);
        if components_eq(&kj, k) {
            return Some(j);
        }
        j = j + 1;
    }
    None
}

impl WatchList {
    #[verifier::type_invariant]
    spec fn keys_distinct(self) -> bool {
        self.paths matches Some(v) ==> watch_keys(v@).no_duplicates()
    }

    /// An empty watch list, to which no path was added yet.
    pub fn new() -> (r: WatchList)
        ensures
            r@ is None,
    {
        WatchList { paths: None }
    }

    /// Adds `path` to the watched paths; gives whether it was not watched
    /// yet (a path watched twice is held once).
    pub fn watch(&mut self, path: CanonPath) -> (added: bool)
        ensures
            final(self)@ == after_watch(old(self)@, full_components(path@)),
            added == !(old(self)@ matches Some(s) && s.contains(full_components(path@))),
    {
        proof {
            use_type_invariant(&*self);
        }
        let text = match path.as_str() {
            Ok(s) => s,
            Err(_) => {
                assert(false);
                return false;
            },
        };
        let k = full_components_of(text);
        let ghost key = full_components(path@);
        let mut taken: Option<Vec<CanonPath>> = None;
        std::mem::swap(&mut taken, &mut self.paths);
        let mut current = match taken {
            Some(v) => v,
            None => {
                let mut v: Vec<CanonPath> = Vec::new();
                v.push(path);
                proof {
                    let ks = watch_keys(v@);
                    assert(ks =~= seq![key]);
                    assert(ks[0] == key);
                    assert forall|x: Seq<Seq<char>>| ks.contains(x) <==> x == key by {
                        if ks.contains(x) {
                            let i = choose|i: int| 0 <= i < ks.len() && ks[i] == x;
                            assert(i == 0);
                        }
                    }
                    assert(ks.to_set() =~= Set::empty().insert(key));
                }
                self.paths = Some(v);
                return true;
            },
        };
        let ghost old_keys = watch_keys(current@);
        match key_index(&current, &k) {
            Some(j) => {
                proof {
                    assert(old_keys.contains(key));
                    assert(old_keys.to_set().insert(key) =~= old_keys.to_set());
                }
                self.paths = Some(current);
                false
            },
            None => {
                current.push(path);
                proof {
                    assert(watch_keys(current@) =~= old_keys.push(key));
                    old_keys.lemma_push_to_set_commute(key);
                    let nk = watch_keys(current@);
                    assert forall|a: int, b: int|
                        0 <= a < nk.len() && 0 <= b < nk.len() && a != b implies nk[a] != nk[b] by {
                        if a < old_keys.len() && b < old_keys.len() {
                            assert(nk[a] == old_keys[a] && nk[b] == old_keys[b]);
                        } else if a == old_keys.len() {
                            assert(nk[b] == old_keys[b]);
                        } else {
                            assert(nk[a] == old_keys[a]);
                        }
                    }
                }
                self.paths = Some(current);
                true
            },
        }
    }

    /// Removes `path` from the watched paths. Fails where no path was ever
    /// added, and where `path` is not watched; the list is then unchanged.
    pub fn unwatch(&mut self, path: &CanonPath) -> (r: Result<(), WatcherError>)
        ensures
            (final(self)@, r is Ok) == after_unwatch(old(self)@, full_components(path@)),
            old(self)@ is None ==> (r matches Err(e) && e is PathNotFound),
            old(self)@ is Some && r is Err ==> (r matches Err(e) && e matches WatcherError::PathNotWatched {
                path: p,
            } && p@ == path@),
    {
        proof {
            use_type_invariant(&*self);
        }
        let text = match path.as_str() {
            Ok(s) => s,
            Err(_) => {
                assert(false);
                return Err(WatcherError::PathNotFound);
            },
        };
        let k = full_components_of(text);
        let ghost key = full_components(path@);
        let mut taken: Option<Vec<CanonPath>> = None;
        std::mem::swap(&mut taken, &mut self.paths);
        let mut current = match taken {
            Some(v) => v,
            None => {
                return Err(WatcherError::PathNotFound);
            },
        };
        let ghost old_keys = watch_keys(current@);
        match key_index(&current, &k) {
            Some(j) => {
                let ghost before = current@;
                current.remove(j);
                proof {
                    let nk = watch_keys(current@);
                    assert(nk =~= old_keys.remove(j as int));
                    assert(old_keys.to_set().contains(key));
                    assert forall|x: Seq<Seq<char>>| nk.contains(x) <==> (old_keys.contains(x) && x != key) by {
                        if nk.contains(x) {
                            let i = choose|i: int| 0 <= i < nk.len() && nk[i] == x;
                            if i < j {
                                assert(old_keys[i] == x);
                                assert(x != key);
                            } else {
                                assert(old_keys[i + 1] == x);
                                assert(x != key);
                            }
                        }
                        if old_keys.contains(x) && x != key {
                            let i = choose|i: int| 0 <= i < old_keys.len() && old_keys[i] == x;
                            if i < j {
                                assert(nk[i] == x);
                            } else {
                                assert(i != j);
                                assert(nk[i - 1] == x);
                            }
                        }
                    }
                    assert(nk.to_set() =~= old_keys.to_set().remove(key));
                    assert forall|a: int, b: int|
                        0 <= a < nk.len() && 0 <= b < nk.len() && a != b implies nk[a] != nk[b] by {
                        let oa = if a < j { a } else { a + 1 };
                        let ob = if b < j { b } else { b + 1 };
                        assert(nk[a] == old_keys[oa] && nk[b] == old_keys[ob]);
                    }
                }
                self.paths = Some(current);
                Ok(())
            },
            None => {
                self.paths = Some(current);
                Err(WatcherError::PathNotWatched { path: String::from_str(text) })
            },
        }
    }

    /// The watched paths, once one was added.
    pub fn paths(&self) -> (r: Option<Vec<CanonPath>>)
        ensures
            match r {
                Some(v) => self@ == Some(watch_keys(v@).to_set()) && watch_keys(v@).no_duplicates(),
                None => self@ is None,
            },
    {
        proof {
            use_type_invariant(&*self);
        }
        match &self.paths {
            Some(v) => {
                let mut out: Vec<CanonPath> = Vec::new();
                let mut i: usize = 0;
                while i < v.len()
                    invariant
                        i <= v.len(),
                        out@ == v@.take(i as int),
                    decreases v.len() - i,
                {
                    out.push(v[i].clone());
                    assert(v@.take(i + 1) =~= v@.take(i as int).push(v@[i as int]));
                    i = i + 1;
                }
                assert(v@.take(v.len() as int) =~= v@);
                Some(out)
            },
            None => None,
        }
    }
}

/// Unwatching a path that was just watched, and was not watched before,
/// gives back the earlier watch list (an empty one where none was there).
pub proof fn lemma_unwatch_undoes_watch(w: Option<Set<Seq<Seq<char>>>>, k: Seq<Seq<char>>)
    requires
        !(w matches Some(s) && s.contains(k)),
    ensures
        after_unwatch(after_watch(w, k), k) == (
            Some(
                match w {
                    Some(s) => s,
                    None => Set::empty(),
                },
            ),
            true,
        ),
{
    match w {
        Some(s) => {
            assert(s.insert(k).remove(k) =~= s);
        },
        None => {
            assert(Set::<Seq<Seq<char>>>::empty().insert(k).remove(k) =~= Set::empty());
        },
    }
}

/// Watching a path twice watches it once.
pub proof fn lemma_watch_idempotent(w: Option<Set<Seq<Seq<char>>>>, k: Seq<Seq<char>>)
    ensures
        after_watch(after_watch(w, k), k) == after_watch(w, k),
{
    match w {
        Some(s) => {
            assert(s.insert(k).insert(k) =~= s.insert(k));
        },
        None => {
            assert(Set::<Seq<Seq<char>>>::empty().insert(k).insert(k) =~= Set::empty().insert(k));
        },
    }
}

/// A path that is not watched cannot be unwatched, and the list stays as it
/// was.
pub proof fn lemma_unwatch_unknown_fails(w: Option<Set<Seq<Seq<char>>>>, k: Seq<Seq<char>>)
    requires
        !(w matches Some(s) && s.contains(k)),
    ensures
        after_unwatch(w, k) == (w, false),
{
}

} // verus!
