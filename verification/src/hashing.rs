//! Content, structure and identity hashes of files and folders.
//!
//! Digests are computed with BLAKE3. A file's identity hash binds its content
//! hash to the file-system identifier of the file and to its name; a folder's
//! content hash covers the content hashes of its entries in byte order, and its
//! structure hash covers the names and kinds of its entries in name order.
use vstd::prelude::*;
use vstd::bytes::{spec_u32_to_le_bytes, spec_u64_to_le_bytes, u32_to_le_bytes, u64_to_le_bytes};
use vstd::string::StringExecFns;
use vstd::utf8::encode_utf8;

use crate::errors::{AppError, HashError};
use crate::paths::{file_name, path_file_name};
use crate::order::{
    digest_views, distinct_names, lemma_sort_bytes_order_independent,
    lemma_sorted_entries_order_independent, listing_views, sort_bytes, sort_digests, sort_listing,
    sorted_entries, Entry, ListingEntry,
};


verus! {

/// A BLAKE3 digest.
pub type Digest = [u8; 32];

/// What `blake3::hash` returns for the given input bytes.
pub uninterp spec fn blake3_digest(data: Seq<u8>) -> Seq<u8>;

/// `blake3::hash`: the 32-byte BLAKE3 digest of `data`, a function of the bytes
/// alone. Hashing the same bytes in several `Hasher::update` calls gives the
/// same digest, as the crate documents, so every digest here is taken in one call.
#[verifier::external_body]
fn blake3_hash(data: &[u8]) -> (r: Digest)
    ensures
        r@ == blake3_digest(data@),
{
    *blake3::hash(data).as_bytes()
}

/// Identifier of a file on its file system.
#[derive(Debug, Clone, Copy)]
pub enum FileId {
    Inode { device_id: u64, inode_num: u64 },
    Index { volume_serial_num: u32, file_index: u64 },
}

impl FileId {
    /// Two identifiers are equal when they are of the same kind and agree on both numbers.
    pub open spec fn same_as(self, other: FileId) -> bool {
        match (self, other) {
            (
                FileId::Inode { device_id: d1, inode_num: i1 },
                FileId::Inode { device_id: d2, inode_num: i2 },
            ) => d1 == d2 && i1 == i2,
            (
                FileId::Index { volume_serial_num: v1, file_index: f1 },
                FileId::Index { volume_serial_num: v2, file_index: f2 },
            ) => v1 == v2 && f1 == f2,
            _ => false,
        }
    }

    /// The bytes of the identifier that go into an identity hash.
    pub open spec fn spec_bytes(self) -> Seq<u8> {
        match self {
            FileId::Inode { device_id, inode_num } => spec_u64_to_le_bytes(device_id)
                + spec_u64_to_le_bytes(inode_num),
            FileId::Index { volume_serial_num, file_index } => spec_u32_to_le_bytes(volume_serial_num)
                + spec_u64_to_le_bytes(file_index),
        }
    }

    fn id_bytes(&self) -> (r: Vec<u8>)
        ensures
            r@ == self.spec_bytes(),
    {
        match self {
            FileId::Inode { device_id, inode_num } => {
                let mut a = u64_to_le_bytes(*device_id);
                let b = u64_to_le_bytes(*inode_num);
                extend_bytes(&mut a, b.as_slice());
                a
            },
            FileId::Index { volume_serial_num, file_index } => {
                let mut a = u32_to_le_bytes(*volume_serial_num);
                let b = u64_to_le_bytes(*file_index);
                extend_bytes(&mut a, b.as_slice());
                a
            },
        }
    }
}

impl PartialEq for FileId {
    fn eq(&self, other: &Self) -> (r: bool) {
        match (self, other) {
            (
                FileId::Inode { device_id: dev1, inode_num: num1 },
                FileId::Inode { device_id: dev2, inode_num: num2 },
            ) => *dev1 == *dev2 && *num1 == *num2,
            (
                FileId::Index { volume_serial_num: vol1, file_index: idx1 },
                FileId::Index { volume_serial_num: vol2, file_index: idx2 },
            ) => *vol1 == *vol2 && *idx1 == *idx2,
            _ => false,
        }
    }
}

impl vstd::std_specs::cmp::PartialEqSpecImpl for FileId {
    open spec fn obeys_eq_spec() -> bool {
        true
    }

    open spec fn eq_spec(&self, other: &FileId) -> bool {
        self.same_as(*other)
    }
}

/// Equality of file identifiers is an equivalence relation, and it holds exactly
/// for identical identifiers.
pub proof fn lemma_file_id_eq_is_equivalence(a: FileId, b: FileId, c: FileId)
    ensures
        a.same_as(a),
        a.same_as(b) == b.same_as(a),
        a.same_as(b) && b.same_as(c) ==> a.same_as(c),
        a.same_as(b) <==> a == b,
{
}

fn extend_bytes(v: &mut Vec<u8>, s: &[u8])
    ensures
        final(v)@ == old(v)@ + s@,
{
    let ghost start = v@;
    let mut i: usize = 0;
    while i < s.len()
        invariant
            i <= s.len(),
            v@ == start + s@.take(i as int),
        decreases s.len() - i,
    {
        v.push(s[i]);
        assert(start + s@.take(i + 1) =~= (start + s@.take(i as int)).push(s@[i as int]));
        i = i + 1;
    }
    assert(s@.take(s.len() as int) =~= s@);
}

// ----- text form of a digest -----

/// Lower-case hexadecimal digit of a value below 16.
pub open spec fn hex_digit(n: u8) -> char {
    if n < 10 {
        ((n as u32) + 48) as char
    } else {
        ((n as u32) + 87) as char
    }
}

/// Lower-case hexadecimal text of a byte string, two digits per byte.
pub open spec fn hex_lower(bytes: Seq<u8>) -> Seq<char>
    decreases bytes.len(),
{
    if bytes.len() == 0 {
        Seq::empty()
    } else {
        hex_lower(bytes.drop_last()) + seq![hex_digit(bytes.last() / 16), hex_digit(bytes.last() % 16)]
    }
}

/// The `Debug` text of a `blake3::Hash`: `Hash("<lower-case hex>")`.
pub open spec fn digest_text(d: Seq<u8>) -> Seq<char> {
    "Hash(\""@ + hex_lower(d) + "\")"@
}

fn hex_char(n: u8) -> (c: char)
    requires
        n < 16,
    ensures
        c == hex_digit(n),
{
    if n < 10 {
        (n + 48) as char
    } else {
        (n + 87) as char
    }
}

/// The text under which a digest is stored: the `Debug` text of the
/// corresponding `blake3::Hash` (see [`digest_text`]).
pub fn digest_to_string(d: &Digest) -> (s: String)
    ensures
        s@ == digest_text(d@),
{
    let mut hex: Vec<char> = Vec::new();
    let mut i: usize = 0;
    while i < 32
        invariant
            i <= 32,
            hex@ == hex_lower(d@.take(i as int)),
        decreases 32 - i,
    {
        let b = d[i];
        let hi = hex_char(b / 16);
        let lo = hex_char(b % 16);
        hex.push(hi);
        hex.push(lo);
        assert(d@.take(i + 1).drop_last() =~= d@.take(i as int));
        assert(d@.take(i + 1).last() == b);
        i = i + 1;
    }
    assert(d@.take(32) =~= d@);
    let body = crate::text::from_chars(&hex);
    String::from_str("Hash(\"").concat(body.as_str()).concat("\")")
}

// ----- identity hashes -----

/// The bytes hashed into a file's identity: content hash, identifier, name.
pub open spec fn file_identity_input(content_hash: Seq<u8>, id: FileId, name: Seq<char>) -> Seq<u8> {
    content_hash + id.spec_bytes() + encode_utf8(name)
}

/// The bytes hashed into a folder's identity: structure hash, content hash,
/// identifier, name.
pub open spec fn folder_identity_input(
    structure_hash: Seq<u8>,
    content_hash: Seq<u8>,
    id: FileId,
    name: Seq<char>,
) -> Seq<u8> {
    structure_hash + content_hash + id.spec_bytes() + encode_utf8(name)
}

/// Hashes of one file.
#[derive(Debug)]
pub struct FileHash {
    pub content_hash: Digest,
    pub identity_hash: Digest,
    pub file_id: FileId,
}

impl FileHash {
    /// BLAKE3 digest of the file's content.
    pub fn hash_file_content(content: &[u8]) -> (r: Digest)
        ensures
            r@ == blake3_digest(content@),
    {
        blake3_hash(content)
    }

    /// Digest of the content hash, the identifier and the name of a file.
    pub fn hash_identity(content_hash: &Digest, file_id: &FileId, file_name: &str) -> (r: Digest)
        ensures
            r@ == blake3_digest(file_identity_input(content_hash@, *file_id, file_name@)),
    {
        let mut input: Vec<u8> = Vec::new();
        extend_bytes(&mut input, content_hash);
        let idb = file_id.id_bytes();
        extend_bytes(&mut input, idb.as_slice());
        extend_bytes(&mut input, file_name.as_bytes());
        assert(input@ =~= file_identity_input(content_hash@, *file_id, file_name@));
        blake3_hash(input.as_slice())
    }

    /// The hashes of the file at `path`, given its content and identifier. Fails
    /// with an invalid-path hash error when the path has no file name.
    pub fn hash(path: &str, content: &[u8], file_id: FileId) -> (r: Result<FileHash, AppError>)
        ensures
            match r {
                Ok(h) => {
                    &&& file_name(path@) matches Some(name)
                    &&& h.content_hash@ == blake3_digest(content@)
                    &&& h.identity_hash@ == blake3_digest(
                        file_identity_input(h.content_hash@, file_id, name),
                    )
                    &&& h.file_id == file_id
                },
                Err(e) => file_name(path@) is None && e.wraps(
                    crate::errors::AppErrorKind::HashError,
                    HashError::InvalidPathError.spec_text(),
                ),
            },
    {
        let content_hash = Self::hash_file_content(content);
        let name = match path_file_name(path) {
            Some(n) => n,
            None => return Err(AppError::from_hash_error(HashError::InvalidPathError)),
        };
        let identity_hash = Self::hash_identity(&content_hash, &file_id, name.as_str());
        Ok(FileHash { content_hash, identity_hash, file_id })
    }
}

// ----- folder hashes -----

/// Concatenation of byte strings, left to right.
pub open spec fn concat_all(s: Seq<Seq<u8>>) -> Seq<u8>
    decreases s.len(),
{
    if s.len() == 0 {
        Seq::empty()
    } else {
        concat_all(s.drop_last()) + s.last()
    }
}

/// The bytes hashed into a folder's content hash: the content hashes of its
/// entries, in byte order, concatenated.
pub open spec fn content_input(hashes: Seq<Seq<u8>>) -> Seq<u8> {
    concat_all(sort_bytes(hashes))
}

/// The bytes of one listing entry in a structure hash: its name, then 1 for a
/// directory or 0 for a file.
pub open spec fn entry_bytes(e: Entry) -> Seq<u8> {
    encode_utf8(e.0).push(if e.1 { 1u8 } else { 0u8 })
}

/// The bytes hashed into a folder's structure hash: its entries in name order,
/// one per name (the last read wins), each as [`entry_bytes`].
pub open spec fn structure_input(entries: Seq<Entry>) -> Seq<u8> {
    let sorted = sorted_entries(entries);
    concat_all(Seq::new(sorted.len(), |i: int| entry_bytes(sorted[i])))
}

/// A folder's content hash does not depend on the order in which its entries
/// were read.
pub proof fn lemma_content_hash_order_independent(a: Seq<Seq<u8>>, b: Seq<Seq<u8>>)
    requires
        a.to_multiset() == b.to_multiset(),
    ensures
        content_input(a) == content_input(b),
{
    lemma_sort_bytes_order_independent(a, b);
}

/// A folder's structure hash does not depend on the order in which its
/// entries were read: the entries of a directory have distinct names.
pub proof fn lemma_structure_hash_order_independent(a: Seq<Entry>, b: Seq<Entry>)
    requires
        distinct_names(a),
        distinct_names(b),
        forall|e: Entry| a.contains(e) <==> b.contains(e),
    ensures
        structure_input(a) == structure_input(b),
{
    lemma_sorted_entries_order_independent(a, b);
}

/// An entry of a folder with its content hash, as the directory walk reports it.
pub struct ChildHash {
    pub name: String,
    pub is_dir: bool,
    pub content_hash: Digest,
}

pub open spec fn child_content_views(v: Seq<ChildHash>) -> Seq<Seq<u8>> {
    Seq::new(v.len(), |i: int| v[i].content_hash@)
}

pub open spec fn child_entries(v: Seq<ChildHash>) -> Seq<Entry> {
    Seq::new(v.len(), |i: int| (v[i].name@, v[i].is_dir))
}

/// Hashes of one folder.
#[derive(Debug)]
pub struct FolderHash {
    pub structure_hash: Digest,
    pub content_hash: Digest,
    pub identity_hash: Digest,
    pub file_id: FileId,
}

impl FolderHash {
    /// Digest of the content hashes of a folder's entries, taken in byte order.
    /// The hashes are left sorted in that order.
    pub fn hash_content(content_hashes: &mut Vec<Digest>) -> (r: Digest)
        ensures
            r@ == blake3_digest(content_input(digest_views(old(content_hashes)@))),
            digest_views(final(content_hashes)@) == sort_bytes(digest_views(old(content_hashes)@)),
    {
        let sorted = sort_digests(content_hashes);
        let mut input: Vec<u8> = Vec::new();
        let mut i: usize = 0;
        while i < sorted.len()
            invariant
                i <= sorted.len(),
                input@ == concat_all(digest_views(sorted@).take(i as int)),
            decreases sorted.len() - i,
        {
            extend_bytes(&mut input, &sorted[i]);
            assert(digest_views(sorted@).take(i + 1).drop_last() =~= digest_views(sorted@).take(i as int));
            i = i + 1;
        }
        assert(digest_views(sorted@).take(sorted.len() as int) =~= digest_views(sorted@));
        *content_hashes = sorted;
        blake3_hash(input.as_slice())
    }

    /// Digest of the names and kinds of a folder's entries, in name order.
    pub fn hash_structure(children: &Vec<ChildHash>) -> (r: Digest)
        ensures
            r@ == blake3_digest(structure_input(child_entries(children@))),
    {
        let mut listing: Vec<ListingEntry> = Vec::new();
        let mut i: usize = 0;
        while i < children.len()
            invariant
                i <= children.len(),
                listing_views(listing@) == child_entries(children@).take(i as int),
            decreases children.len() - i,
        {
            let name = crate::text::to_chars(children[i].name.as_str());
            let ghost before = listing@;
            let entry = ListingEntry { name, is_dir: children[i].is_dir };
            listing.push(entry);
            assert(listing@ == before.push(entry));
            assert(listing_views(listing@) =~= listing_views(before).push((entry.name@, entry.is_dir)));
            assert(child_entries(children@).take(i + 1) =~= child_entries(children@).take(i as int).push(
                (children@[i as int].name@, children@[i as int].is_dir),
            ));
            i = i + 1;
        }
        assert(child_entries(children@).take(children.len() as int) =~= child_entries(children@));
        let sorted = sort_listing(&listing);
        let ghost sv = sorted_entries(child_entries(children@));
        let ghost parts = Seq::new(sv.len(), |k: int| entry_bytes(sv[k]));
        let mut input: Vec<u8> = Vec::new();
        let mut j: usize = 0;
        while j < sorted.len()
            invariant
                j <= sorted.len(),
                listing_views(sorted@) == sv,
                parts == Seq::new(sv.len(), |k: int| entry_bytes(sv[k])),
                input@ == concat_all(parts.take(j as int)),
            decreases sorted.len() - j,
        {
            let name = crate::text::from_chars(&sorted[j].name);
            extend_bytes(&mut input, name.as_str().as_bytes());
            let flag: u8 = if sorted[j].is_dir { 1 } else { 0 };
            input.push(flag);
            assert(parts.take(j + 1).drop_last() =~= parts.take(j as int));
            assert(parts[j as int] == entry_bytes(sv[j as int]));
            assert(input@ =~= concat_all(parts.take(j as int)) + parts[j as int]);
            j = j + 1;
        }
        assert(parts.take(sorted.len() as int) =~= parts);
        blake3_hash(input.as_slice())
    }

    /// Digest of the structure hash, content hash, identifier and name of a folder.
    pub fn hash_identity(
        structure_hash: &Digest,
        content_hash: &Digest,
        file_id: &FileId,
        folder_name: &str,
    ) -> (r: Digest)
        ensures
            r@ == blake3_digest(
                folder_identity_input(structure_hash@, content_hash@, *file_id, folder_name@),
            ),
    {
        let mut input: Vec<u8> = Vec::new();
        extend_bytes(&mut input, structure_hash);
        extend_bytes(&mut input, content_hash);
        let idb = file_id.id_bytes();
        extend_bytes(&mut input, idb.as_slice());
        extend_bytes(&mut input, folder_name.as_bytes());
        assert(input@ =~= folder_identity_input(structure_hash@, content_hash@, *file_id, folder_name@));
        blake3_hash(input.as_slice())
    }

    /// The hashes of the folder at `path`, given its entries (in the order they
    /// were read) and its identifier. Fails with an invalid-path hash error when
    /// the path has no file name.
    pub fn hash(path: &str, children: &Vec<ChildHash>, file_id: FileId) -> (r: Result<FolderHash, AppError>)
        ensures
            match r {
                Ok(h) => {
                    &&& file_name(path@) matches Some(name)
                    &&& h.structure_hash@ == blake3_digest(structure_input(child_entries(children@)))
                    &&& h.content_hash@ == blake3_digest(content_input(child_content_views(children@)))
                    &&& h.identity_hash@ == blake3_digest(
                        folder_identity_input(h.structure_hash@, h.content_hash@, file_id, name),
                    )
                    &&& h.file_id == file_id
                },
                Err(e) => file_name(path@) is None && e.wraps(
                    crate::errors::AppErrorKind::HashError,
                    HashError::InvalidPathError.spec_text(),
                ),
            },
    {
        let structure_hash = Self::hash_structure(children);
        let mut hashes: Vec<Digest> = Vec::new();
        let mut i: usize = 0;
        while i < children.len()
            invariant
                i <= children.len(),
                digest_views(hashes@) == child_content_views(children@).take(i as int),
            decreases children.len() - i,
        {
            let ghost before = hashes@;
            let h = children[i].content_hash;
            hashes.push(h);
            assert(digest_views(hashes@) =~= digest_views(before).push(h@));
            assert(child_content_views(children@).take(i + 1) =~= child_content_views(children@).take(
                i as int,
            ).push(children@[i as int].content_hash@));
            i = i + 1;
        }
        assert(child_content_views(children@).take(children.len() as int) =~= child_content_views(children@));
        let content_hash = Self::hash_content(&mut hashes);
        let name = match path_file_name(path) {
            Some(n) => n,
            None => return Err(AppError::from_hash_error(HashError::InvalidPathError)),
        };
        let identity_hash = Self::hash_identity(&structure_hash, &content_hash, &file_id, name.as_str());
        Ok(FolderHash { structure_hash, content_hash, identity_hash, file_id })
    }
}

} // verus!
