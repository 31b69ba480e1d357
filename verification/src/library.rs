//! Libraries: their configuration, where their files lie, and the decisions
//! taken when one is opened, saved or deleted.
use vstd::prelude::*;
use vstd::string::StringExecFns;
use vstd::utf8::{encode_utf8, valid_utf8};
use crate::errors::{FileError, LibraryError};
use crate::paths::{
    file_name, is_direct_child, is_plain_name, join, lemma_join_name_and_parent,
    lemma_starts_with_transitive, path_join, path_starts_with, starts_with,
};

verus! {

// ----- decorations -----

/// A named colour of a library or a folder.
pub struct Color {
    pub name: String,
    pub hex: String,
}

impl Default for Color {
    fn default() -> (r: Color)
        ensures
            r.name@ == Seq::<char>::empty(),
            r.hex@ == Seq::<char>::empty(),
    {
        Color { name: String::new(), hex: String::new() }
    }
}

impl Clone for Color {
    fn clone(&self) -> (r: Color)
        ensures
            r == *self,
    {
        Color { name: self.name.clone(), hex: self.hex.clone() }
    }
}

/// What an icon's content is.
#[derive(Debug, Clone, Copy, PartialEq, Eq, Structural)]
pub enum IconType {
    Icon,
    Image,
    Text,
}

impl Default for IconType {
    fn default() -> (r: IconType)
        ensures
            r == IconType::Icon,
    {
        IconType::Icon
    }
}

/// An icon of a library or a folder.
pub struct Icon {
    pub name: String,
    pub content: String,
    pub content_type: IconType,
}

impl Default for Icon {
    fn default() -> (r: Icon)
        ensures
            r.name@ == Seq::<char>::empty(),
            r.content@ == Seq::<char>::empty(),
            r.content_type == IconType::Icon,
    {
        Icon { name: String::new(), content: String::new(), content_type: IconType::default() }
    }
}

impl Clone for Icon {
    fn clone(&self) -> (r: Icon)
        ensures
            r == *self,
    {
        Icon { name: self.name.clone(), content: self.content.clone(), content_type: self.content_type }
    }
}

// ----- configuration -----

fn clone_text(t: &Option<String>) -> (r: Option<String>)
    ensures
        r == *t,
{
    match t {
        Some(s) => Some(s.clone()),
        None => None,
    }
}

/// One directory of a library.
pub struct LibraryPathConfig {
    pub name: Option<String>,
    pub path: Option<String>,
}

impl Default for LibraryPathConfig {
    fn default() -> (r: LibraryPathConfig)
        ensures
            r.name matches Some(n) && n@ == Seq::<char>::empty(),
            r.path matches Some(p) && p@ == Seq::<char>::empty(),
    {
        let path = path_join("", "");
        proof {
            reveal_strlit("");
            assert(join(Seq::<char>::empty(), Seq::<char>::empty()) =~= Seq::<char>::empty());
        }
        LibraryPathConfig { name: Some(String::new()), path: Some(path) }
    }
}

impl Clone for LibraryPathConfig {
    fn clone(&self) -> (r: LibraryPathConfig)
        ensures
            r == *self,
    {
        LibraryPathConfig { name: clone_text(&self.name), path: clone_text(&self.path) }
    }
}

/// The configuration of a library, as stored in its `config.toml`.
pub struct LibraryConfig {
    pub name: String,
    pub color: Color,
    pub icon: Icon,
    pub library_paths: Vec<LibraryPathConfig>,
}

impl LibraryConfig {
    /// Whether `self` is the configuration of a new library: named `Library`,
    /// with the default colour and icon and one default directory.
    pub open spec fn is_default(self) -> bool {
        &&& self.name@ == "Library"@
        &&& self.color.name@ == Seq::<char>::empty()
        &&& self.color.hex@ == Seq::<char>::empty()
        &&& self.icon.name@ == Seq::<char>::empty()
        &&& self.icon.content@ == Seq::<char>::empty()
        &&& self.icon.content_type == IconType::Icon
        &&& self.library_paths@.len() == 1
        &&& self.library_paths@[0].name matches Some(n) && n@ == Seq::<char>::empty()
        &&& self.library_paths@[0].path matches Some(p) && p@ == Seq::<char>::empty()
    }
}

impl Default for LibraryConfig {
    fn default() -> (r: LibraryConfig)
        ensures
            r.is_default(),
    {
        let mut paths: Vec<LibraryPathConfig> = Vec::new();
        paths.push(LibraryPathConfig::default());
        LibraryConfig {
            name: String::from_str("Library"),
            color: Color::default(),
            icon: Icon::default(),
            library_paths: paths,
        }
    }
}

impl Clone for LibraryConfig {
    fn clone(&self) -> (r: LibraryConfig)
        ensures
            r.name == self.name,
            r.color == self.color,
            r.icon == self.icon,
            r.library_paths@ == self.library_paths@,
    {
        let mut paths: Vec<LibraryPathConfig> = Vec::new();
        let mut i: usize = 0;
        while i < self.library_paths.len()
            invariant
                i <= self.library_paths.len(),
                paths@ == self.library_paths@.take(i as int),
            decreases self.library_paths.len() - i,
        {
            paths.push(self.library_paths[i].clone());
            assert(self.library_paths@.take(i + 1) =~= self.library_paths@.take(i as int).push(
                self.library_paths@[i as int],
            ));
            i = i + 1;
        }
        assert(self.library_paths@.take(self.library_paths.len() as int) =~= self.library_paths@);
        LibraryConfig {
            name: self.name.clone(),
            color: self.color.clone(),
            icon: self.icon.clone(),
            library_paths: paths,
        }
    }
}

// ----- canonical paths -----

/// A path in canonical form, or the empty path where it could not be
/// canonicalised.
pub struct CanonPath {
    path: String,
}

impl View for CanonPath {
    type V = Seq<char>;

    closed spec fn view(&self) -> Seq<char> {
        self.path@
    }
}

impl Clone for CanonPath {
    fn clone(&self) -> (r: CanonPath)
        ensures
            r == *self,
    {
        CanonPath { path: self.path.clone() }
    }
}

impl CanonPath {
    /// The canonical path from what canonicalising a path gave: the path
    /// itself, or the empty path where canonicalising failed.
    pub fn from_resolved(resolved: Option<String>) -> (r: CanonPath)
        ensures
            r@ == match resolved {
                Some(p) => p@,
                None => Seq::<char>::empty(),
            },
    {
        match resolved {
            Some(p) => CanonPath { path: p },
            None => CanonPath { path: String::new() },
        }
    }

    /// The path as text; a path held as a `String` always has one.
    pub fn as_str(&self) -> (r: Result<&str, FileError>)
        ensures
            r matches Ok(s) && s@ == self@,
    {
        Ok(self.path.as_str())
    }

    /// The path itself.
    pub fn into_path(self) -> (r: String)
        ensures
            r@ == self@,
    {
        self.path
    }
}

/// The text of the connection string of the database at `db_path`.
pub open spec fn connection_text(db_path: Seq<char>) -> Seq<char> {
    "sqlite:///"@ + db_path
}

/// The connection string of the SQLite database at `db_path`.
pub fn database_connection_string(db_path: &CanonPath) -> (r: Result<String, FileError>)
    ensures
        r matches Ok(s) && s@ == connection_text(db_path@),
{
    match db_path.as_str() {
        Ok(p) => Ok(String::from_str("sqlite:///").concat(p)),
        Err(e) => Err(e),
    }
}

// ----- libraries -----

/// `std::str::from_utf8`. Claimed, as its documentation says: the bytes are
/// read as text exactly where they are valid UTF-8, and the text is then the
/// one whose UTF-8 encoding they are.
#[verifier::external_body]
fn utf8_text(bytes: &[u8]) -> (r: Option<&str>)
    ensures
        match r {
            Some(t) => valid_utf8(bytes@) && encode_utf8(t@) == bytes@,
            None => !valid_utf8(bytes@),
        },
{
    match std::str::from_utf8(bytes) {
        Ok(t) => Some(t),
        Err(_) => None,
    }
}

/// A library: the directory where its files lie, and its configuration.
pub struct Library {
    pub share_path: Option<String>,
    pub library_config: Option<LibraryConfig>,
}

/// The outcome of one probe while waiting for a library directory to appear
/// or disappear.
#[derive(Debug, Clone, Copy, PartialEq, Eq, Structural)]
pub enum WaitStep {
    /// The directory is in the awaited state.
    Done,
    /// Probe again.
    Retry,
    /// Stop waiting with this error.
    Fail(LibraryError),
}

impl Library {
    /// A library with no directory and no configuration.
    pub fn new() -> (r: Library)
        ensures
            r.share_path is None,
            r.library_config is None,
    {
        Library { share_path: None, library_config: None }
    }

    /// The library of the previous run where it could be opened, else a new
    /// one.
    pub fn last_or_new(last: Result<Library, LibraryError>) -> (r: Library)
        ensures
            match last {
                Ok(l) => r == l,
                Err(_) => r.share_path is None && r.library_config is None,
            },
    {
        match last {
            Ok(lib) => lib,
            Err(_) => Self::new(),
        }
    }

    /// The directory of the previous run's library, from the path recorded in
    /// `last_lib.toml`: an error where none was recorded.
    pub fn last_library_path(recorded: Option<String>) -> (r: Result<String, LibraryError>)
        ensures
            match recorded {
                Some(p) => r == Ok::<String, LibraryError>(p),
                None => r == Err::<String, LibraryError>(LibraryError::LastLibraryNotFound),
            },
    {
        match recorded {
            Some(p) => Ok(p),
            None => Err(LibraryError::LastLibraryNotFound),
        }
    }

    /// Where the database of the library lies: `db.sqlite` in its directory.
    pub fn database_path(&self) -> (r: Result<String, LibraryError>)
        ensures
            match self.share_path {
                Some(p) => r matches Ok(d) && d@ == join(p@, "db.sqlite"@),
                None => r == Err::<String, LibraryError>(LibraryError::Io),
            },
    {
        match &self.share_path {
            Some(p) => Ok(path_join(p.as_str(), "db.sqlite")),
            None => Err(LibraryError::Io),
        }
    }

    /// Where the configuration of the library lies: `config.toml` in its
    /// directory.
    pub fn config_path(&self) -> (r: Result<String, LibraryError>)
        ensures
            match self.share_path {
                Some(p) => r matches Ok(c) && c@ == join(p@, "config.toml"@),
                None => r == Err::<String, LibraryError>(LibraryError::Io),
            },
    {
        match &self.share_path {
            Some(p) => Ok(path_join(p.as_str(), "config.toml")),
            None => Err(LibraryError::Io),
        }
    }

    /// The canonical path of the library's database. `canonical` is what
    /// canonicalising [`Library::database_path`] gave (`None` where it
    /// failed, which yields the empty path). A library without a directory
    /// has no database.
    pub fn get_canon_database_path(&self, canonical: Option<String>) -> (r: Result<
        CanonPath,
        LibraryError,
    >)
        ensures
            match self.share_path {
                Some(_) => r matches Ok(c) && c@ == match canonical {
                    Some(p) => p@,
                    None => Seq::<char>::empty(),
                },
                None => r matches Err(e) && e == LibraryError::Io,
            },
    {
        match &self.share_path {
            Some(_) => Ok(CanonPath::from_resolved(canonical)),
            None => Err(LibraryError::Io),
        }
    }

    /// The outcome of saving the configuration. `existed` says whether the
    /// configuration file was there before (or that looking for it failed),
    /// `written` whether creating the directory and writing the file
    /// succeeded. Saving needs a directory and a configuration; it gives
    /// whether the file existed.
    pub fn save_config(&self, existed: Result<bool, ()>, written: Result<(), ()>) -> (r: Result<
        bool,
        LibraryError,
    >)
        ensures
            self.share_path is None ==> r == Err::<bool, LibraryError>(LibraryError::Io),
            self.share_path is Some ==> match existed {
                Err(_) => r == Err::<bool, LibraryError>(LibraryError::Io),
                Ok(b) => if self.library_config is None {
                    r == Err::<bool, LibraryError>(LibraryError::InvalidSharePath)
                } else if written is Err {
                    r == Err::<bool, LibraryError>(LibraryError::Io)
                } else {
                    r == Ok::<bool, LibraryError>(b)
                },
            },
    {
        if self.share_path.is_none() {
            return Err(LibraryError::Io);
        }
        match existed {
            Err(_) => Err(LibraryError::Io),
            Ok(b) => {
                if self.library_config.is_none() {
                    Err(LibraryError::InvalidSharePath)
                } else {
                    match written {
                        Err(_) => Err(LibraryError::Io),
                        Ok(()) => Ok(b),
                    }
                }
            },
        }
    }

    /// Loading the configuration from disk happens when the library is
    /// opened; this never fails.
    pub fn load_config(&self) -> (r: Result<(), FileError>)
        ensures
            r is Ok,
    {
        Ok(())
    }

    /// Whether `share_path` may hold a library: it must lie inside the data
    /// directory `datahome`.
    pub fn check_share_path(share_path: &str, datahome: &str) -> (r: Result<(), LibraryError>)
        ensures
            r == if starts_with(share_path@, datahome@) {
                Ok::<(), LibraryError>(())
            } else {
                Err::<(), LibraryError>(LibraryError::InvalidSharePath)
            },
    {
        if path_starts_with(share_path, datahome) {
            Ok(())
        } else {
            Err(LibraryError::InvalidSharePath)
        }
    }

    /// The text of a library's `config.toml` from what reading it gave (`Err`
    /// where it could not be read). A file that cannot be read, or whose bytes
    /// are not UTF-8, leaves the configuration uncreatable; otherwise the text
    /// is the one those bytes encode.
    pub fn config_text(read: Result<Vec<u8>, ()>) -> (r: Result<String, LibraryError>)
        ensures
            match read {
                Ok(b) => if valid_utf8(b@) {
                    r matches Ok(t) && encode_utf8(t@) == b@
                } else {
                    r == Err::<String, LibraryError>(LibraryError::ConfigCreationError)
                },
                Err(_) => r == Err::<String, LibraryError>(LibraryError::ConfigCreationError),
            },
    {
        match read {
            Ok(b) => match utf8_text(b.as_slice()) {
                Some(t) => Ok(String::from_str(t)),
                None => Err(LibraryError::ConfigCreationError),
            },
            Err(_) => Err(LibraryError::ConfigCreationError),
        }
    }

    /// Opens the library at `share_path` in place of `self`. The path must
    /// lie inside the data directory `datahome`. `config` is the parsed
    /// content of its `config.toml`, `None` where it could not be parsed, in
    /// which case the default configuration is used.
    pub fn switch_or_create_lib(self, share_path: &str, datahome: &str, config: Option<LibraryConfig>) -> (r:
        Result<Library, LibraryError>)
        ensures
            !starts_with(share_path@, datahome@) ==> r == Err::<Library, LibraryError>(
                LibraryError::InvalidSharePath,
            ),
            starts_with(share_path@, datahome@) ==> (r matches Ok(l) && {
                &&& l.share_path matches Some(p) && p@ == share_path@
                &&& l.library_config matches Some(c) && match config {
                    Some(given) => c == given,
                    None => c.is_default(),
                }
            }),
    {
        match Self::check_share_path(share_path, datahome) {
            Err(e) => Err(e),
            Ok(()) => {
                let c = match config {
                    Some(given) => given,
                    None => LibraryConfig::default(),
                };
                let mut lib = self;
                lib.share_path = Some(String::from_str(share_path));
                lib.library_config = Some(c);
                Ok(lib)
            },
        }
    }

    /// The outcome of deleting the library's directory. `found` is what
    /// looking for the directory gave; `removal` what removing it gave, which
    /// is consulted only where it existed. A library without a directory has
    /// nothing to delete.
    pub fn delete(self, found: Result<bool, ()>, removal: Result<(), ()>) -> (r: Result<
        (),
        LibraryError,
    >)
        ensures
            self.share_path is None ==> (r is Ok),
            self.share_path is Some ==> r == match found {
                Ok(true) => match removal {
                    Ok(()) => Ok::<(), LibraryError>(()),
                    Err(_) => Err::<(), LibraryError>(LibraryError::Io),
                },
                Ok(false) => Err::<(), LibraryError>(LibraryError::InvalidSharePath),
                Err(_) => Err::<(), LibraryError>(LibraryError::Io),
            },
    {
        if self.share_path.is_none() {
            return Ok(());
        }
        match found {
            Ok(true) => match removal {
                Ok(()) => Ok(()),
                Err(_) => Err(LibraryError::Io),
            },
            Ok(false) => Err(LibraryError::InvalidSharePath),
            Err(_) => Err(LibraryError::Io),
        }
    }

    /// One step of waiting for the library's directory to exist (`want_exists`)
    /// or to be gone. `probe` is what looking for it gave, `timed_out` whether
    /// the time allowed has passed.
    pub fn await_path_step(&self, want_exists: bool, probe: Result<bool, ()>, timed_out: bool) -> (r:
        WaitStep)
        ensures
            self.share_path is None ==> r == WaitStep::Fail(LibraryError::Io),
            self.share_path is Some ==> r == match probe {
                Ok(found) => if found == want_exists {
                    WaitStep::Done
                } else if timed_out {
                    WaitStep::Fail(
                        if want_exists {
                            LibraryError::CreationTimeout
                        } else {
                            LibraryError::DeletionTimeout
                        },
                    )
                } else {
                    WaitStep::Retry
                },
                Err(_) => if timed_out {
                    WaitStep::Fail(LibraryError::CreationTimeout)
                } else {
                    WaitStep::Retry
                },
            },
    {
        if self.share_path.is_none() {
            return WaitStep::Fail(LibraryError::Io);
        }
        match probe {
            Ok(found) => {
                if found == want_exists {
                    WaitStep::Done
                } else if timed_out {
                    if want_exists {
                        WaitStep::Fail(LibraryError::CreationTimeout)
                    } else {
                        WaitStep::Fail(LibraryError::DeletionTimeout)
                    }
                } else {
                    WaitStep::Retry
                }
            },
            Err(_) => if timed_out {
                WaitStep::Fail(LibraryError::CreationTimeout)
            } else {
                WaitStep::Retry
            },
        }
    }

    /// The directories of the library: the paths of its configured
    /// directories, in order, skipping those without one.
    pub fn get_library_paths(&self) -> (r: Vec<String>)
        ensures
            match self.library_config {
                Some(c) => r@ == configured_paths(c.library_paths@),
                None => r@.len() == 0,
            },
    {
        match &self.library_config {
            Some(c) => {
                let mut out: Vec<String> = Vec::new();
                let mut i: usize = 0;
                while i < c.library_paths.len()
                    invariant
                        i <= c.library_paths.len(),
                        out@ == configured_paths(c.library_paths@.take(i as int)),
                    decreases c.library_paths.len() - i,
                {
                    assert(c.library_paths@.take(i + 1).drop_last() =~= c.library_paths@.take(i as int));
                    assert(c.library_paths@.take(i + 1).last() == c.library_paths@[i as int]);
                    match &c.library_paths[i].path {
                        Some(p) => out.push(p.clone()),
                        None => {},
                    }
                    i = i + 1;
                }
                assert(c.library_paths@.take(c.library_paths.len() as int) =~= c.library_paths@);
                out
            },
            None => Vec::new(),
        }
    }

    /// The configured directories, or the message that there is no
    /// configuration.
    pub fn get_paths(&self) -> (r: Result<Vec<LibraryPathConfig>, String>)
        ensures
            match self.library_config {
                Some(c) => r matches Ok(v) && v@ == c.library_paths@,
                None => r matches Err(m) && m@ == "There is no config defined!"@,
            },
    {
        match &self.library_config {
            Some(c) => Ok(c.clone().library_paths),
            None => Err(String::from_str("There is no config defined!")),
        }
    }
}

/// The paths of configured directories, in order, skipping those without one.
pub open spec fn configured_paths(v: Seq<LibraryPathConfig>) -> Seq<String>
    decreases v.len(),
{
    if v.len() == 0 {
        seq![]
    } else {
        configured_paths(v.drop_last()) + match v.last().path {
            Some(p) => seq![p],
            None => seq![],
        }
    }
}

/// The database and the configuration of a library lie directly in its
/// directory, under their own names, and so inside the data directory that
/// the directory was accepted in.
pub proof fn lemma_library_files_in_its_directory(share: Seq<char>, datahome: Seq<char>)
    requires
        starts_with(share, datahome),
    ensures
        is_direct_child(join(share, "db.sqlite"@), share),
        file_name(join(share, "db.sqlite"@)) == Some("db.sqlite"@),
        starts_with(join(share, "db.sqlite"@), datahome),
        is_direct_child(join(share, "config.toml"@), share),
        file_name(join(share, "config.toml"@)) == Some("config.toml"@),
        starts_with(join(share, "config.toml"@), datahome),
{
    reveal_strlit("db.sqlite");
    reveal_strlit("config.toml");
    assert(is_plain_name("db.sqlite"@));
    assert(is_plain_name("config.toml"@));
    lemma_join_name_and_parent(share, "db.sqlite"@);
    lemma_join_name_and_parent(share, "config.toml"@);
    lemma_starts_with_transitive(join(share, "db.sqlite"@), share, datahome);
    lemma_starts_with_transitive(join(share, "config.toml"@), share, datahome);
}

} // verus!
