//! Records of the database and the reports that the commands hand to the
//! frontend.
use vstd::prelude::*;
use vstd::string::StringExecFns;
use crate::scanner::SyncReport;

verus! {

/// Summary of a directory scan, as sent to the frontend.
pub struct ScanReport {
    pub files_scanned: u64,
    pub files_inserted: u64,
    pub files_updated: u64,
    pub files_deleted: u64,
    /// Duration of the scan in milliseconds.
    pub duration: u64,
    pub errors: Vec<String>,
}

impl ScanReport {
    /// Number of database changes the scan made: inserts, updates and deletes.
    pub fn total_operations(&self) -> (total: u64)
        requires
            self.files_inserted + self.files_updated + self.files_deleted <= u64::MAX,
        ensures
            total == self.files_inserted + self.files_updated + self.files_deleted,
    {
        self.files_inserted + self.files_updated + self.files_deleted
    }
}

/// A row of the `files` table, its timestamps in their text form.
pub struct FileRecord {
    pub id: i32,
    pub name: String,
    pub path: String,
    pub content_hash: String,
    pub identity_hash: String,
    pub file_type_id: i32,
    pub file_system_id: i32,
    pub created_at: String,
    pub updated_at: String,
}

impl Clone for FileRecord {
    fn clone(&self) -> (r: FileRecord)
        ensures
            r == *self,
    {
        FileRecord {
            id: self.id,
            name: self.name.clone(),
            path: self.path.clone(),
            content_hash: self.content_hash.clone(),
            identity_hash: self.identity_hash.clone(),
            file_type_id: self.file_type_id,
            file_system_id: self.file_system_id,
            created_at: self.created_at.clone(),
            updated_at: self.updated_at.clone(),
        }
    }
}

/// A file as the frontend displays it.
pub struct FileInfo {
    pub id: i32,
    pub name: String,
    pub path: String,
    pub content_hash: String,
    pub identity_hash: String,
    pub file_type_id: i32,
    pub file_system_id: i32,
    pub created_at: String,
    pub updated_at: String,
}

/// The display form of a row of the `files` table: every column as it is.
pub open spec fn display_of(file: FileRecord) -> FileInfo {
    FileInfo {
        id: file.id,
        name: file.name,
        path: file.path,
        content_hash: file.content_hash,
        identity_hash: file.identity_hash,
        file_type_id: file.file_type_id,
        file_system_id: file.file_system_id,
        created_at: file.created_at,
        updated_at: file.updated_at,
    }
}

impl FileInfo {
    /// The display form of a row of the `files` table: every column as it is.
    pub fn from_record(file: FileRecord) -> (r: FileInfo)
        ensures
            r == display_of(file),
            r.id == file.id,
            r.name == file.name,
            r.path == file.path,
            r.content_hash == file.content_hash,
            r.identity_hash == file.identity_hash,
            r.file_type_id == file.file_type_id,
            r.file_system_id == file.file_system_id,
            r.created_at == file.created_at,
            r.updated_at == file.updated_at,
    {
        FileInfo {
            id: file.id,
            name: file.name,
            path: file.path,
            content_hash: file.content_hash,
            identity_hash: file.identity_hash,
            file_type_id: file.file_type_id,
            file_system_id: file.file_system_id,
            created_at: file.created_at,
            updated_at: file.updated_at,
        }
    }
}

impl ScanReport {
    /// The report sent to the frontend for a synchronisation that took
    /// `duration_ms` milliseconds.
    pub fn from_sync(report: SyncReport, duration_ms: u64) -> (r: ScanReport)
        ensures
            r.files_scanned == report.files_scanned,
            r.files_inserted == report.files_inserted,
            r.files_updated == report.files_updated,
            r.files_deleted == report.files_deleted,
            r.duration == duration_ms,
            r.errors == report.errors,
    {
        ScanReport {
            files_scanned: report.files_scanned as u64,
            files_inserted: report.files_inserted as u64,
            files_updated: report.files_updated as u64,
            files_deleted: report.files_deleted as u64,
            duration: duration_ms,
            errors: report.errors,
        }
    }
}

/// Whether a directory can be scanned: it must exist and be a directory.
pub fn scan_path_check(exists: bool, is_dir: bool) -> (r: Result<(), String>)
    ensures
        !exists ==> (r matches Err(m) && m@ == "Directory does not exist"@),
        exists && !is_dir ==> (r matches Err(m) && m@ == "Path is not a directory"@),
        exists && is_dir ==> (r is Ok),
{
    if !exists {
        return Err(String::from_str("Directory does not exist"));
    }
    if !is_dir {
        return Err(String::from_str("Path is not a directory"));
    }
    Ok(())
}

/// The answer of the health check.
pub fn check_health() -> (r: String)
    ensures
        r@ == "Hello from Rust"@,
{
    String::from_str("Hello from Rust")
}

} // verus!
