//! Error types of the catalogue and the messages they display.
use vstd::prelude::*;
use vstd::string::StringExecFns;

verus! {

/// The category of an [`AppError`].
#[derive(Debug, Clone, Copy, PartialEq, Eq, Structural)]
pub enum AppErrorKind {
    FileError,
    DbError,
    HashError,
}

impl AppErrorKind {
    pub open spec fn spec_name(self) -> Seq<char> {
        match self {
            AppErrorKind::FileError => "FileError"@,
            AppErrorKind::DbError => "DbError"@,
            AppErrorKind::HashError => "HashError"@,
        }
    }

    /// The name of the kind, as it is displayed.
    pub fn to_string(&self) -> (s: String)
        ensures
            s@ == self.spec_name(),
    {
        match self {
            AppErrorKind::FileError => String::from_str("FileError"),
            AppErrorKind::DbError => String::from_str("DbError"),
            AppErrorKind::HashError => String::from_str("HashError"),
        }
    }
}

/// An application error: a kind, a message, and the message of its source, if any.
#[derive(Debug)]
pub enum AppError {
    Categorized { kind: AppErrorKind, message: String, source: Option<String> },
}

impl AppError {
    /// Whether this error has the given kind, and the given text as message and as source.
    pub open spec fn wraps(self, kind: AppErrorKind, text: Seq<char>) -> bool {
        match self {
            AppError::Categorized { kind: k, message, source } => {
                &&& k == kind
                &&& message@ == text
                &&& match source {
                    Some(s) => s@ == text,
                    None => false,
                }
            },
        }
    }

    /// Whether this error has the given kind and message, whatever its source.
    pub open spec fn carries(self, kind: AppErrorKind, text: Seq<char>) -> bool {
        match self {
            AppError::Categorized { kind: k, message, .. } => k == kind && message@ == text,
        }
    }

    pub open spec fn spec_text(self) -> Seq<char> {
        match self {
            AppError::Categorized { kind, message, .. } => kind.spec_name() + ": "@ + message@,
        }
    }

    /// The displayed text: `"{kind}: {message}"`.
    pub fn to_string(&self) -> (s: String)
        ensures
            s@ == self.spec_text(),
    {
        match self {
            AppError::Categorized { kind, message, .. } => {
                let k = kind.to_string();
                k.concat(": ").concat(message.as_str())
            },
        }
    }

    /// An error of the given kind with a message and no source.
    pub fn new(kind: AppErrorKind, message: String) -> (e: AppError)
        ensures
            e == (AppError::Categorized { kind, message, source: None }),
    {
        AppError::Categorized { kind, message, source: None }
    }

    /// The error that a [`HashError`] becomes: kind `HashError`, its text as message and source.
    pub fn from_hash_error(e: HashError) -> (r: AppError)
        ensures
            r.wraps(AppErrorKind::HashError, e.spec_text()),
    {
        AppError::Categorized {
            kind: AppErrorKind::HashError,
            message: e.to_string(),
            source: Some(e.to_string()),
        }
    }

    /// The error that a [`FileError`] becomes: kind `FileError`, its text as message and source.
    pub fn from_file_error(e: FileError) -> (r: AppError)
        ensures
            r.wraps(AppErrorKind::FileError, e.spec_text()),
    {
        AppError::Categorized {
            kind: AppErrorKind::FileError,
            message: e.to_string(),
            source: Some(e.to_string()),
        }
    }

    /// The error that a [`DbError`] becomes: kind `DbError`, its text as message and source.
    pub fn from_db_error(e: DbError) -> (r: AppError)
        ensures
            r.wraps(AppErrorKind::DbError, e.spec_text()),
    {
        AppError::Categorized {
            kind: AppErrorKind::DbError,
            message: e.to_string(),
            source: Some(e.to_string()),
        }
    }
}

/// Errors of the database layer.
#[derive(Debug, Clone, Copy, PartialEq, Eq, Structural)]
pub enum DbError {
    ConnectionError,
    ConfigurationError,
    TransactionError,
    QueryError,
    InsertError,
    UpdateError,
    DeleteError,
    RollbackError,
    IntegrityConstraintError,
    ReferentialConstraintError,
    MigrationError,
    SeaOrmError,
}

impl DbError {
    /// The name of the variant, as `Debug` prints it.
    pub open spec fn spec_name(self) -> Seq<char> {
        match self {
            DbError::ConnectionError => "ConnectionError"@,
            DbError::ConfigurationError => "ConfigurationError"@,
            DbError::TransactionError => "TransactionError"@,
            DbError::QueryError => "QueryError"@,
            DbError::InsertError => "InsertError"@,
            DbError::UpdateError => "UpdateError"@,
            DbError::DeleteError => "DeleteError"@,
            DbError::RollbackError => "RollbackError"@,
            DbError::IntegrityConstraintError => "IntegrityConstraintError"@,
            DbError::ReferentialConstraintError => "ReferentialConstraintError"@,
            DbError::MigrationError => "MigrationError"@,
            DbError::SeaOrmError => "SeaOrmError"@,
        }
    }

    /// The name of the variant, as `Debug` prints it.
    pub fn name(&self) -> (s: String)
        ensures
            s@ == self.spec_name(),
    {
        match self {
            DbError::ConnectionError => String::from_str("ConnectionError"),
            DbError::ConfigurationError => String::from_str("ConfigurationError"),
            DbError::TransactionError => String::from_str("TransactionError"),
            DbError::QueryError => String::from_str("QueryError"),
            DbError::InsertError => String::from_str("InsertError"),
            DbError::UpdateError => String::from_str("UpdateError"),
            DbError::DeleteError => String::from_str("DeleteError"),
            DbError::RollbackError => String::from_str("RollbackError"),
            DbError::IntegrityConstraintError => String::from_str("IntegrityConstraintError"),
            DbError::ReferentialConstraintError => String::from_str("ReferentialConstraintError"),
            DbError::MigrationError => String::from_str("MigrationError"),
            DbError::SeaOrmError => String::from_str("SeaOrmError"),
        }
    }

    pub open spec fn spec_text(self) -> Seq<char> {
        match self {
            DbError::ConnectionError => "Database connection could not be established!"@,
            DbError::ConfigurationError => "Database configuration is invalid!"@,
            DbError::TransactionError => "Database transaction issue occured!"@,
            DbError::QueryError => "Database query failed!"@,
            DbError::InsertError => "Database insert could not be completed!"@,
            DbError::UpdateError => "Database update could not be completed!"@,
            DbError::DeleteError => "Database delete could not be completed!"@,
            DbError::RollbackError => "Database rollback failed!"@,
            DbError::IntegrityConstraintError => "Database data integrity has been violated!"@,
            DbError::ReferentialConstraintError => "Database foreign key constraint has been violated!"@,
            DbError::MigrationError => "Database migration could not be completed!"@,
            DbError::SeaOrmError => "SeaORM process has failed!"@,
        }
    }

    /// The displayed text of the error.
    pub fn to_string(&self) -> (s: String)
        ensures
            s@ == self.spec_text(),
    {
        match self {
            DbError::ConnectionError => String::from_str("Database connection could not be established!"),
            DbError::ConfigurationError => String::from_str("Database configuration is invalid!"),
            DbError::TransactionError => String::from_str("Database transaction issue occured!"),
            DbError::QueryError => String::from_str("Database query failed!"),
            DbError::InsertError => String::from_str("Database insert could not be completed!"),
            DbError::UpdateError => String::from_str("Database update could not be completed!"),
            DbError::DeleteError => String::from_str("Database delete could not be completed!"),
            DbError::RollbackError => String::from_str("Database rollback failed!"),
            DbError::IntegrityConstraintError => String::from_str("Database data integrity has been violated!"),
            DbError::ReferentialConstraintError => String::from_str(
                "Database foreign key constraint has been violated!",
            ),
            DbError::MigrationError => String::from_str("Database migration could not be completed!"),
            DbError::SeaOrmError => String::from_str("SeaORM process has failed!"),
        }
    }
}

/// Errors about files and paths.
#[derive(Debug)]
pub enum FileError {
    GenericError { path: String },
    Io { path: String },
    PathNotFoundError { path: String },
}

impl FileError {
    pub open spec fn spec_text(self) -> Seq<char> {
        match self {
            FileError::GenericError { path } => "Generic file error: "@ + path@,
            FileError::Io { path } => "Input/Output error: "@ + path@,
            FileError::PathNotFoundError { path } => "Path could not be found: "@ + path@,
        }
    }

    /// The displayed text of the error, with its path.
    pub fn to_string(&self) -> (s: String)
        ensures
            s@ == self.spec_text(),
    {
        match self {
            FileError::GenericError { path } => String::from_str("Generic file error: ").concat(path.as_str()),
            FileError::Io { path } => String::from_str("Input/Output error: ").concat(path.as_str()),
            FileError::PathNotFoundError { path } => String::from_str("Path could not be found: ").concat(
                path.as_str(),
            ),
        }
    }

    /// Whether two errors are of the same variant; the paths are not compared.
    pub open spec fn same_variant(self, other: FileError) -> bool {
        match (self, other) {
            (FileError::GenericError { .. }, FileError::GenericError { .. }) => true,
            (FileError::Io { .. }, FileError::Io { .. }) => true,
            (FileError::PathNotFoundError { .. }, FileError::PathNotFoundError { .. }) => true,
            _ => false,
        }
    }
}

impl PartialEq for FileError {
    fn eq(&self, other: &Self) -> (r: bool) {
        match (self, other) {
            (FileError::GenericError { .. }, FileError::GenericError { .. }) => true,
            (FileError::Io { .. }, FileError::Io { .. }) => true,
            (FileError::PathNotFoundError { .. }, FileError::PathNotFoundError { .. }) => true,
            _ => false,
        }
    }
}

impl vstd::std_specs::cmp::PartialEqSpecImpl for FileError {
    open spec fn obeys_eq_spec() -> bool {
        true
    }

    open spec fn eq_spec(&self, other: &FileError) -> bool {
        self.same_variant(*other)
    }
}

/// Errors while hashing files and folders.
#[derive(Debug, Clone, Copy, PartialEq, Eq, Structural)]
pub enum HashError {
    IoError,
    InvalidPathError,
    PermissionDeniedError,
}

impl HashError {
    pub open spec fn spec_text(self) -> Seq<char> {
        match self {
            HashError::IoError => "An IO error occurred while trying to hash file or folder!"@,
            HashError::InvalidPathError => "The path to be hashed is invalid!"@,
            HashError::PermissionDeniedError => "The operation could not be completed due to insufficient permissions!"@,
        }
    }

    /// The displayed text of the error.
    pub fn to_string(&self) -> (s: String)
        ensures
            s@ == self.spec_text(),
    {
        match self {
            HashError::IoError => String::from_str("An IO error occurred while trying to hash file or folder!"),
            HashError::InvalidPathError => String::from_str("The path to be hashed is invalid!"),
            HashError::PermissionDeniedError => String::from_str(
                "The operation could not be completed due to insufficient permissions!",
            ),
        }
    }
}

/// Errors of library management.
#[derive(Debug, Clone, Copy, PartialEq, Eq, Structural)]
pub enum LibraryError {
    CreationTimeout,
    DeletionTimeout,
    Io,
    InvalidSharePath,
    ConfigCreationError,
    LastLibraryNotFound,
    DataHomeNotFoundError,
}

impl LibraryError {
    pub open spec fn spec_text(self) -> Seq<char> {
        match self {
            LibraryError::CreationTimeout => "The creation of the library has timed out!"@,
            LibraryError::DeletionTimeout => "The deletion of the library has timed out!"@,
            LibraryError::Io => "There has been an Input/Output issue!"@,
            LibraryError::InvalidSharePath => "The provided share path is invalid!"@,
            LibraryError::ConfigCreationError => "The config for the library could not be created!"@,
            LibraryError::LastLibraryNotFound => "There has been no last library detected, prompting for a new one..."@,
            LibraryError::DataHomeNotFoundError => "The OS has no known configuration for a data home directory!"@,
        }
    }

    /// The displayed text of the error.
    pub fn to_string(&self) -> (s: String)
        ensures
            s@ == self.spec_text(),
    {
        match self {
            LibraryError::CreationTimeout => String::from_str("The creation of the library has timed out!"),
            LibraryError::DeletionTimeout => String::from_str("The deletion of the library has timed out!"),
            LibraryError::Io => String::from_str("There has been an Input/Output issue!"),
            LibraryError::InvalidSharePath => String::from_str("The provided share path is invalid!"),
            LibraryError::ConfigCreationError => String::from_str(
                "The config for the library could not be created!",
            ),
            LibraryError::LastLibraryNotFound => String::from_str(
                "There has been no last library detected, prompting for a new one...",
            ),
            LibraryError::DataHomeNotFoundError => String::from_str(
                "The OS has no known configuration for a data home directory!",
            ),
        }
    }
}

/// Errors of the directory scanner.
#[derive(Debug)]
pub enum ScannerError {
    PathScanFailedError { path: String },
    DatabaseState { path: String },
}

impl ScannerError {
    pub open spec fn spec_text(self) -> Seq<char> {
        match self {
            ScannerError::PathScanFailedError { path } => "The scan of path "@ + path@ + " failed!"@,
            ScannerError::DatabaseState { path } => "The scan of path "@ + path@ + " failed!"@,
        }
    }

    /// The displayed text of the error, with its path.
    pub fn to_string(&self) -> (s: String)
        ensures
            s@ == self.spec_text(),
    {
        match self {
            ScannerError::PathScanFailedError { path } => String::from_str("The scan of path ").concat(
                path.as_str(),
            ).concat(" failed!"),
            ScannerError::DatabaseState { path } => String::from_str("The scan of path ").concat(
                path.as_str(),
            ).concat(" failed!"),
        }
    }
}

/// Errors of the file watcher. An I/O error carries the text of its cause.
#[derive(Debug)]
pub enum WatcherError {
    PathNotWatched { path: String },
    Io(String),
    PathNotFound,
    InvalidEventType,
}

impl WatcherError {
    pub open spec fn spec_text(self) -> Seq<char> {
        match self {
            WatcherError::PathNotWatched { path } => "The path "@ + path@
                + " is not being watched and cannot be unwatched!"@,
            WatcherError::Io(cause) => "The operation could not be completed because of an IO failure! Cause: "@
                + cause@,
            WatcherError::PathNotFound => "The path to be watcher or that interacts with the watcher could not be found!"@,
            WatcherError::InvalidEventType => "The event emitted by the watcher is not recognized!"@,
        }
    }

    /// The displayed text of the error.
    pub fn to_string(&self) -> (s: String)
        ensures
            s@ == self.spec_text(),
    {
        match self {
            WatcherError::PathNotWatched { path } => String::from_str("The path ").concat(path.as_str()).concat(
                " is not being watched and cannot be unwatched!",
            ),
            WatcherError::Io(cause) => String::from_str(
                "The operation could not be completed because of an IO failure! Cause: ",
            ).concat(cause.as_str()),
            WatcherError::PathNotFound => String::from_str(
                "The path to be watcher or that interacts with the watcher could not be found!",
            ),
            WatcherError::InvalidEventType => String::from_str(
                "The event emitted by the watcher is not recognized!",
            ),
        }
    }
}

/// The kind of a configuration error. An I/O error carries the text of its cause.
#[derive(Debug)]
pub enum ConfigErrorKind {
    KeyringError(String),
    AndroidKeystoreError(String),
    EncryptionError(String),
    IoError(String),
    SerializationError(String),
    NoCredentialsFound,
}

impl ConfigErrorKind {
    pub open spec fn spec_text(self) -> Seq<char> {
        match self {
            ConfigErrorKind::KeyringError(m) => "KeyringError: "@ + m@,
            ConfigErrorKind::AndroidKeystoreError(m) => "AndroidKeystoreError: "@ + m@,
            ConfigErrorKind::EncryptionError(m) => "EncryptionError: "@ + m@,
            ConfigErrorKind::IoError(m) => "IoError: "@ + m@,
            ConfigErrorKind::SerializationError(m) => "SerializationError: "@ + m@,
            ConfigErrorKind::NoCredentialsFound => "NoCredentialsFound"@,
        }
    }

    /// The displayed text: the kind's name, then its message.
    pub fn to_string(&self) -> (s: String)
        ensures
            s@ == self.spec_text(),
    {
        match self {
            ConfigErrorKind::KeyringError(m) => String::from_str("KeyringError: ").concat(m.as_str()),
            ConfigErrorKind::AndroidKeystoreError(m) => String::from_str("AndroidKeystoreError: ").concat(
                m.as_str(),
            ),
            ConfigErrorKind::EncryptionError(m) => String::from_str("EncryptionError: ").concat(m.as_str()),
            ConfigErrorKind::IoError(m) => String::from_str("IoError: ").concat(m.as_str()),
            ConfigErrorKind::SerializationError(m) => String::from_str("SerializationError: ").concat(
                m.as_str(),
            ),
            ConfigErrorKind::NoCredentialsFound => String::from_str("NoCredentialsFound"),
        }
    }
}

/// A configuration error.
#[derive(Debug)]
pub struct ConfigError {
    pub kind: ConfigErrorKind,
}

impl ConfigError {
    /// The displayed text: that of its kind.
    pub fn to_string(&self) -> (s: String)
        ensures
            s@ == self.kind.spec_text(),
    {
        self.kind.to_string()
    }
}

/// Errors of thumbnail generation. Errors of the image decoder, of file input
/// and output and of the database are held by their text.
#[derive(Debug)]
pub enum ThumbnailError {
    ImageDecode(String),
    ThumbnailNotFound,
    Io(String),
    Database(String),
    UnsupportedFileType { mime_type: String },
    FileNotFound { path: String },
    GenerationFailed { reason: String },
    FileIdNotProvided,
}

impl ThumbnailError {
    pub open spec fn spec_text(self) -> Seq<char> {
        match self {
            ThumbnailError::ImageDecode(e) => "Image decoding failed: "@ + e@,
            ThumbnailError::ThumbnailNotFound => "The thumbnail is not in the database. Is it already generated?"@,
            ThumbnailError::Io(e) => "File I/O error: "@ + e@,
            ThumbnailError::Database(e) => "Database error: "@ + e@,
            ThumbnailError::UnsupportedFileType { mime_type } => "Unsupported file type: "@ + mime_type@,
            ThumbnailError::FileNotFound { path } => "File not found: "@ + path@,
            ThumbnailError::GenerationFailed { reason } => "Thumbnail generation failed: "@ + reason@,
            ThumbnailError::FileIdNotProvided => "File ID for thumbnail generation not provided"@,
        }
    }

    /// The displayed text of the error.
    pub fn to_string(&self) -> (s: String)
        ensures
            s@ == self.spec_text(),
    {
        match self {
            ThumbnailError::ImageDecode(e) => String::from_str("Image decoding failed: ").concat(e.as_str()),
            ThumbnailError::ThumbnailNotFound => String::from_str(
                "The thumbnail is not in the database. Is it already generated?",
            ),
            ThumbnailError::Io(e) => String::from_str("File I/O error: ").concat(e.as_str()),
            ThumbnailError::Database(e) => String::from_str("Database error: ").concat(e.as_str()),
            ThumbnailError::UnsupportedFileType { mime_type } => String::from_str(
                "Unsupported file type: ",
            ).concat(mime_type.as_str()),
            ThumbnailError::FileNotFound { path } => String::from_str("File not found: ").concat(path.as_str()),
            ThumbnailError::GenerationFailed { reason } => String::from_str(
                "Thumbnail generation failed: ",
            ).concat(reason.as_str()),
            ThumbnailError::FileIdNotProvided => String::from_str(
                "File ID for thumbnail generation not provided",
            ),
        }
    }
}

} // verus!
