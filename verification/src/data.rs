//! Values that the commands exchange with the frontend: files, folders,
//! filters and the tree of watched folders.
use vstd::prelude::*;
use crate::file_type::{ascii_extension_type, detect_file_type, file_type_of};
use crate::hashing::{digest_text, digest_to_string, FileHash};
use crate::report::FileRecord;
use crate::scanner::recorded_name;
use vstd::string::StringExecFns;
use crate::paths::path_file_name;

verus! {

// ----- files -----

/// A file of the catalogue.
pub struct File {
    /// Its row in the database, where it has one.
    pub id: Option<i32>,
    pub path: String,
    pub name: String,
    pub content_hash: String,
    pub identity_hash: String,
    pub file_type_name: String,
    pub file_system_id: Option<i32>,
}

impl File {
    /// The file of a database row; its type is read again from its path.
    /// `is_dir` says whether the path names a directory on disk.
    pub fn from_record(value: FileRecord, is_dir: bool) -> (r: File)
        ensures
            r.id == Some(value.id),
            r.path == value.path,
            r.name == value.name,
            r.content_hash == value.content_hash,
            r.identity_hash == value.identity_hash,
            r.file_type_name@ == file_type_of(value.path@, is_dir),
            r.file_system_id == Some(value.file_system_id),
    {
        let file_type_name = Self::detect_file_type(value.path.as_str(), is_dir);
        File {
            id: Some(value.id),
            path: value.path,
            name: value.name,
            content_hash: value.content_hash,
            identity_hash: value.identity_hash,
            file_type_name,
            file_system_id: Some(value.file_system_id),
        }
    }

    /// The file at `path` with the hashes `hash`, not yet in the database.
    pub fn create_file_info_from_path(path: &str, hash: &FileHash) -> (r: File)
        ensures
            r.id is None,
            r.path@ == path@,
            r.name@ == recorded_name(path@),
            r.content_hash@ == digest_text(hash.content_hash@),
            r.identity_hash@ == digest_text(hash.identity_hash@),
            r.file_type_name@ == file_type_of(path@, false),
            r.file_system_id is None,
    {
        let name = match path_file_name(path) {
            Some(n) => n,
            None => String::from_str("unknown"),
        };
        File {
            id: None,
            path: String::from_str(path),
            name,
            content_hash: digest_to_string(&hash.content_hash),
            identity_hash: digest_to_string(&hash.identity_hash),
            file_type_name: Self::detect_file_type(path, false),
            file_system_id: None,
        }
    }

    /// The type name of the file at `path` (see [`file_type_of`]).
    pub fn detect_file_type(file_path: &str, is_dir: bool) -> (r: String)
        ensures
            r@ == file_type_of(file_path@, is_dir),
            ascii_extension_type(file_path@) matches Some(t) ==> r@ == t,
    {
        detect_file_type(file_path, is_dir)
    }
}

// ----- folders -----

/// A row of the `folders` table, its timestamps in their text form.
pub struct FolderRecord {
    pub id: i32,
    pub name: String,
    pub path: String,
    pub parent_folder_id: Option<i32>,
    pub content_hash: String,
    pub identity_hash: String,
    pub structure_hash: String,
    pub file_system_id: i32,
    pub created_at: String,
    pub updated_at: String,
}

/// A folder as the frontend displays it.
pub struct FolderInfo {
    pub id: i32,
    pub name: String,
    pub path: String,
    pub parent_folder_id: Option<i32>,
    pub content_hash: String,
    pub identity_hash: String,
    pub structure_hash: String,
    pub file_system_id: i32,
    pub created_at: String,
    pub updated_at: String,
}

impl FolderInfo {
    /// The display form of a row of the `folders` table: every column as it is.
    pub fn from_record(folder: FolderRecord) -> (r: FolderInfo)
        ensures
            r.id == folder.id,
            r.name == folder.name,
            r.path == folder.path,
            r.parent_folder_id == folder.parent_folder_id,
            r.content_hash == folder.content_hash,
            r.identity_hash == folder.identity_hash,
            r.structure_hash == folder.structure_hash,
            r.file_system_id == folder.file_system_id,
            r.created_at == folder.created_at,
            r.updated_at == folder.updated_at,
    {
        FolderInfo {
            id: folder.id,
            name: folder.name,
            path: folder.path,
            parent_folder_id: folder.parent_folder_id,
            content_hash: folder.content_hash,
            identity_hash: folder.identity_hash,
            structure_hash: folder.structure_hash,
            file_system_id: folder.file_system_id,
            created_at: folder.created_at,
            updated_at: folder.updated_at,
        }
    }
}

// ----- filters -----

/// Which files a query selects: by tags, by folders, or both.
pub struct Filter {
    pub tag_filter: Option<TagFilter>,
    pub folder_filter: Option<FolderFilter>,
}

/// Files that carry the given tags, by tag name.
pub struct TagFilter {
    pub tags: Vec<String>,
}

/// Files that lie in the given folders.
pub struct FolderFilter {
    pub folders: Vec<String>,
}

// ----- watched folders -----

/// A watched folder with its decorations and the paths of its subfolders.
pub struct WatchedFolderTree {
    pub name: String,
    pub path: String,
    pub children: Option<Vec<String>>,
    pub icon: Option<String>,
    pub color: Option<String>,
}

impl WatchedFolderTree {
    /// A watched folder without subfolders or decorations.
    pub fn new(name: String, path: String) -> (r: WatchedFolderTree)
        ensures
            r.name == name,
            r.path == path,
            r.children is None,
            r.icon is None,
            r.color is None,
    {
        WatchedFolderTree { name, path, children: None, icon: None, color: None }
    }

    /// A watched folder with the given decorations and no subfolders.
    pub fn with_icon_and_color(
        name: String,
        path: String,
        icon: Option<String>,
        color: Option<String>,
    ) -> (r: WatchedFolderTree)
        ensures
            r.name == name,
            r.path == path,
            r.children is None,
            r.icon == icon,
            r.color == color,
    {
        WatchedFolderTree { name, path, children: None, icon, color }
    }

    /// A watched folder with every part given.
    pub fn with(
        name: String,
        path: String,
        children: Option<Vec<String>>,
        icon: Option<String>,
        color: Option<String>,
    ) -> (r: WatchedFolderTree)
        ensures
            r.name == name,
            r.path == path,
            r.children == children,
            r.icon == icon,
            r.color == color,
    {
        WatchedFolderTree { name, path, children, icon, color }
    }

    /// The same folder with the given subfolders.
    pub fn children(self, children: Vec<String>) -> (r: WatchedFolderTree)
        ensures
            r.name == self.name,
            r.path == self.path,
            r.children == Some(children),
            r.icon == self.icon,
            r.color == self.color,
    {
        let mut t = self;
        t.children = Some(children);
        t
    }

    /// The same folder with the given icon.
    pub fn icon(self, icon: String) -> (r: WatchedFolderTree)
        ensures
            r.name == self.name,
            r.path == self.path,
            r.children == self.children,
            r.icon == Some(icon),
            r.color == self.color,
    {
        let mut t = self;
        t.icon = Some(icon);
        t
    }

    /// The same folder with the given colour.
    pub fn color(self, color: String) -> (r: WatchedFolderTree)
        ensures
            r.name == self.name,
            r.path == self.path,
            r.children == self.children,
            r.icon == self.icon,
            r.color == Some(color),
    {
        let mut t = self;
        t.color = Some(color);
        t
    }
}

// ----- file system identifiers -----

/// The columns under which a file system object is identified in the
/// database. On Unix the inode number and the device number are stored,
/// truncated to 32 bits as the columns are, with the inode standing in for the
/// index and no volume serial number.
pub struct FileSystemKey {
    pub inode: i32,
    pub device_num: i32,
    pub index_num: i32,
    pub volume_serial_num: i32,
}

/// The identifier columns of the object with inode number `inode` on the
/// device `device`.
pub fn file_system_key(device: u64, inode: u64) -> (r: FileSystemKey)
    ensures
        r.inode == inode as i32,
        r.device_num == device as i32,
        r.index_num == inode as i32,
        r.volume_serial_num == 0,
{
    let i: i32 = inode as i32;
    FileSystemKey { inode: i, device_num: device as i32, index_num: i, volume_serial_num: 0 }
}

} // verus!
