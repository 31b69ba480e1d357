//! Figures of the catalogue: counts by file type and by tag, ordered from the
//! most to the least frequent, and the details of files and tags.
use vstd::prelude::*;
use vstd::string::StringExecFns;
use crate::report::FileRecord;

verus! {

// ----- ordering by count -----

/// Where an item of count `c` goes in `s`, sorted from the largest count down:
/// after every item whose count is at least `c`.
pub open spec fn desc_position<T>(s: Seq<T>, key: spec_fn(T) -> u64, c: u64) -> int
    decreases s.len(),
{
    if s.len() == 0 {
        0
    } else if key(s.last()) >= c {
        s.len() as int
    } else {
        desc_position(s.drop_last(), key, c)
    }
}

/// `s` with `x` inserted at its place (see [`desc_position`]).
pub open spec fn insert_desc<T>(s: Seq<T>, key: spec_fn(T) -> u64, x: T) -> Seq<T> {
    s.insert(desc_position(s, key, key(x)), x)
}

/// `s` ordered from the largest count down, items of equal count keeping
/// their order: a stable sort.
pub open spec fn sort_desc<T>(s: Seq<T>, key: spec_fn(T) -> u64) -> Seq<T>
    decreases s.len(),
{
    if s.len() == 0 {
        s
    } else {
        insert_desc(sort_desc(s.drop_last(), key), key, s.last())
    }
}

/// Whether the counts of `s` never increase.
pub open spec fn sorted_desc<T>(s: Seq<T>, key: spec_fn(T) -> u64) -> bool {
    forall|i: int, j: int| 0 <= i <= j < s.len() ==> key(s[i]) >= key(s[j])
}

proof fn lemma_desc_position<T>(s: Seq<T>, key: spec_fn(T) -> u64, c: u64)
    requires
        sorted_desc(s, key),
    ensures
        0 <= desc_position(s, key, c) <= s.len(),
        forall|k: int| 0 <= k < desc_position(s, key, c) ==> key(#[trigger] s[k]) >= c,
        forall|k: int| desc_position(s, key, c) <= k < s.len() ==> key(#[trigger] s[k]) < c,
    decreases s.len(),
{
    if s.len() > 0 {
        if key(s.last()) >= c {
            assert forall|k: int| 0 <= k < s.len() implies key(#[trigger] s[k]) >= c by {
                assert(key(s[k]) >= key(s[s.len() - 1]));
            }
        } else {
            let p = s.drop_last();
            assert(sorted_desc(p, key)) by {
                assert forall|i: int, j: int| 0 <= i <= j < p.len() implies key(p[i]) >= key(p[j]) by {
                    assert(p[i] == s[i] && p[j] == s[j]);
                }
            }
            lemma_desc_position(p, key, c);
            assert forall|k: int| 0 <= k < desc_position(s, key, c) implies key(#[trigger] s[k]) >= c by {
                assert(s[k] == p[k]);
            }
            assert forall|k: int| desc_position(s, key, c) <= k < s.len() implies key(#[trigger] s[k]) < c by {
                if k < p.len() {
                    assert(s[k] == p[k]);
                }
            }
        }
    }
}

/// The stable sort orders the counts from the largest down and keeps every
/// item: the result is a permutation of the input.
pub proof fn lemma_sort_desc_sorted_permutation<T>(s: Seq<T>, key: spec_fn(T) -> u64)
    ensures
        sorted_desc(sort_desc(s, key), key),
        sort_desc(s, key).to_multiset() == s.to_multiset(),
    decreases s.len(),
{
    broadcast use vstd::multiset::group_multiset_axioms;
    broadcast use vstd::seq_lib::group_seq_properties;

    if s.len() == 0 {
    } else {
        let p = sort_desc(s.drop_last(), key);
        let x = s.last();
        lemma_sort_desc_sorted_permutation(s.drop_last(), key);
        lemma_desc_position(p, key, key(x));
        let pos = desc_position(p, key, key(x));
        let r = p.insert(pos, x);
        assert(r == sort_desc(s, key));
        assert forall|i: int, j: int| 0 <= i <= j < r.len() implies key(r[i]) >= key(r[j]) by {
            if i < pos {
                if j < pos {
                    assert(r[i] == p[i] && r[j] == p[j]);
                } else if j == pos {
                    assert(r[i] == p[i]);
                } else {
                    assert(r[i] == p[i] && r[j] == p[j - 1]);
                }
            } else if i == pos {
                if j > pos {
                    assert(r[j] == p[j - 1]);
                }
            } else {
                assert(r[i] == p[i - 1] && r[j] == p[j - 1]);
            }
        }
        p.insert_ensures(pos, x);
        assert(s =~= s.drop_last().push(x));
        assert(r.to_multiset() =~= p.to_multiset().insert(x));
    }
}

// ----- statistics -----

/// How many files have one type.
pub struct FileTypeCount {
    pub file_type: String,
    pub count: u64,
}

/// On how many files one tag is.
pub struct TagUsageCount {
    pub tag_name: String,
    pub file_count: u64,
}

/// The count of a type entry.
pub open spec fn type_count(t: FileTypeCount) -> u64 {
    t.count
}

/// The count of a tag entry.
pub open spec fn tag_count(t: TagUsageCount) -> u64 {
    t.file_count
}

/// Type counts ordered from the most frequent type down.
pub open spec fn types_by_frequency(v: Seq<FileTypeCount>) -> Seq<FileTypeCount> {
    sort_desc(v, |t: FileTypeCount| type_count(t))
}

/// Tag counts ordered from the most used tag down.
pub open spec fn tags_by_use(v: Seq<TagUsageCount>) -> Seq<TagUsageCount> {
    sort_desc(v, |t: TagUsageCount| tag_count(t))
}

/// The most frequent types come first: ordering type counts sorts them by
/// their count from the largest down and keeps every entry.
pub proof fn lemma_file_types_most_frequent_first(v: Seq<FileTypeCount>)
    ensures
        forall|i: int, j: int|
            0 <= i <= j < types_by_frequency(v).len() ==> (#[trigger] types_by_frequency(v)[i]).count
                >= (#[trigger] types_by_frequency(v)[j]).count,
        types_by_frequency(v).to_multiset() == v.to_multiset(),
{
    let key = |t: FileTypeCount| type_count(t);
    lemma_sort_desc_sorted_permutation(v, key);
    let r = sort_desc(v, key);
    assert forall|i: int, j: int| 0 <= i <= j < r.len() implies (#[trigger] r[i]).count >= (#[trigger] r[j]).count by {
        assert(key(r[i]) >= key(r[j]));
    }
}

/// The most used tags come first: ordering tag counts sorts them by the
/// number of files that carry them, from the largest down, and keeps every
/// entry.
pub proof fn lemma_tag_usage_most_used_first(v: Seq<TagUsageCount>)
    ensures
        forall|i: int, j: int|
            0 <= i <= j < tags_by_use(v).len() ==> (#[trigger] tags_by_use(v)[i]).file_count
                >= (#[trigger] tags_by_use(v)[j]).file_count,
        tags_by_use(v).to_multiset() == v.to_multiset(),
{
    let key = |t: TagUsageCount| tag_count(t);
    lemma_sort_desc_sorted_permutation(v, key);
    let r = sort_desc(v, key);
    assert forall|i: int, j: int| 0 <= i <= j < r.len() implies (#[trigger] r[i]).file_count >= (#[trigger] r[j]).file_count by {
        assert(key(r[i]) >= key(r[j]));
    }
}

impl Clone for FileTypeCount {
    fn clone(&self) -> (r: FileTypeCount)
        ensures
            r == *self,
    {
        FileTypeCount { file_type: self.file_type.clone(), count: self.count }
    }
}

impl Clone for TagUsageCount {
    fn clone(&self) -> (r: TagUsageCount)
        ensures
            r == *self,
    {
        TagUsageCount { tag_name: self.tag_name.clone(), file_count: self.file_count }
    }
}

/// The type counts from the most frequent type down, types of equal count
/// keeping their order.
pub fn sort_file_types(v: &Vec<FileTypeCount>) -> (r: Vec<FileTypeCount>)
    ensures
        r@ == sort_desc(v@, |t: FileTypeCount| type_count(t)),
        forall|i: int, j: int| 0 <= i <= j < r.len() ==> (#[trigger] r@[i]).count >= (#[trigger] r@[j]).count,
        r@.to_multiset() == v@.to_multiset(),
{
    proof {
        lemma_file_types_most_frequent_first(v@);
    }
    let mut out: Vec<FileTypeCount> = Vec::new();
    let mut i: usize = 0;
    while i < v.len()
        invariant
            i <= v.len(),
            out@ == sort_desc(v@.take(i as int), |t: FileTypeCount| type_count(t)),
        decreases v.len() - i,
    {
        let x = v[i].clone();
        let c: u64 = x.count;
        let mut pos: usize = out.len();
        assert(out@.take(pos as int) =~= out@);
        while pos > 0 && out[pos - 1].count < c
            invariant
                pos <= out.len(),
                desc_position(out@, |t: FileTypeCount| type_count(t), c) == desc_position(
                    out@.take(pos as int),
                    |t: FileTypeCount| type_count(t),
                    c,
                ),
            decreases pos,
        {
            assert(out@.take(pos as int).drop_last() =~= out@.take(pos - 1));
            pos = pos - 1;
        }
        assert(pos == desc_position(out@.take(pos as int), |t: FileTypeCount| type_count(t), c)) by {
            if pos > 0 {
                assert(out@.take(pos as int).last() == out@[pos - 1]);
            }
        }
        assert(v@.take(i + 1).drop_last() =~= v@.take(i as int));
        assert(v@.take(i + 1).last() == v@[i as int]);
        out.insert(pos, x);
        i = i + 1;
    }
    assert(v@.take(v.len() as int) =~= v@);
    out
}

/// The tag counts from the most used tag down, tags of equal use keeping
/// their order.
pub fn sort_tag_usage(v: &Vec<TagUsageCount>) -> (r: Vec<TagUsageCount>)
    ensures
        r@ == sort_desc(v@, |t: TagUsageCount| tag_count(t)),
        forall|i: int, j: int| 0 <= i <= j < r.len() ==> (#[trigger] r@[i]).file_count >= (#[trigger] r@[j]).file_count,
        r@.to_multiset() == v@.to_multiset(),
{
    proof {
        lemma_tag_usage_most_used_first(v@);
    }
    let mut out: Vec<TagUsageCount> = Vec::new();
    let mut i: usize = 0;
    while i < v.len()
        invariant
            i <= v.len(),
            out@ == sort_desc(v@.take(i as int), |t: TagUsageCount| tag_count(t)),
        decreases v.len() - i,
    {
        let x = v[i].clone();
        let c: u64 = x.file_count;
        let mut pos: usize = out.len();
        assert(out@.take(pos as int) =~= out@);
        while pos > 0 && out[pos - 1].file_count < c
            invariant
                pos <= out.len(),
                desc_position(out@, |t: TagUsageCount| tag_count(t), c) == desc_position(
                    out@.take(pos as int),
                    |t: TagUsageCount| tag_count(t),
                    c,
                ),
            decreases pos,
        {
            assert(out@.take(pos as int).drop_last() =~= out@.take(pos - 1));
            pos = pos - 1;
        }
        assert(pos == desc_position(out@.take(pos as int), |t: TagUsageCount| tag_count(t), c)) by {
            if pos > 0 {
                assert(out@.take(pos as int).last() == out@[pos - 1]);
            }
        }
        assert(v@.take(i + 1).drop_last() =~= v@.take(i as int));
        assert(v@.take(i + 1).last() == v@[i as int]);
        out.insert(pos, x);
        i = i + 1;
    }
    assert(v@.take(v.len() as int) =~= v@);
    out
}

// ----- tags and details -----

/// A row of the `tags` table, its timestamps in their text form.
pub struct TagRecord {
    pub id: i32,
    pub name: String,
    pub created_at: String,
    pub updated_at: String,
}

/// A tag as the frontend displays it.
pub struct TagInfo {
    pub id: i32,
    pub name: String,
    pub created_at: String,
    pub updated_at: String,
}

impl TagInfo {
    /// The display form of a row of the `tags` table: every column as it is.
    pub fn from_record(tag: TagRecord) -> (r: TagInfo)
        ensures
            r.id == tag.id,
            r.name == tag.name,
            r.created_at == tag.created_at,
            r.updated_at == tag.updated_at,
    {
        TagInfo { id: tag.id, name: tag.name, created_at: tag.created_at, updated_at: tag.updated_at }
    }
}

/// A link between a file and a tag.
pub struct FileTagInfo {
    pub id: i32,
    pub file_id: i32,
    pub tag_id: i32,
    pub file_name: Option<String>,
    pub tag_name: Option<String>,
}

impl FileTagInfo {
    /// The display form of a row of the `file_has_tags` table; the names of
    /// the file and the tag are not looked up.
    pub fn from_link(id: i32, file_id: i32, tag_id: i32) -> (r: FileTagInfo)
        ensures
            r.id == id,
            r.file_id == file_id,
            r.tag_id == tag_id,
            r.file_name is None,
            r.tag_name is None,
    {
        FileTagInfo { id, file_id, tag_id, file_name: None, tag_name: None }
    }
}

/// A file with its type name and its tags.
pub struct FileWithDetails {
    pub id: i32,
    pub name: String,
    pub path: String,
    pub content_hash: String,
    pub identity_hash: String,
    pub file_type_name: String,
    pub file_system_id: i32,
    pub created_at: String,
    pub updated_at: String,
    pub tags: Vec<TagInfo>,
}

impl FileWithDetails {
    /// The details of `file`: `found_type` is the name of its type where it was
    /// found (else `unknown`), `tags` its tags.
    pub fn assemble(file: FileRecord, found_type: Option<String>, tags: Vec<TagInfo>) -> (r: FileWithDetails)
        ensures
            r.id == file.id,
            r.name == file.name,
            r.path == file.path,
            r.content_hash == file.content_hash,
            r.identity_hash == file.identity_hash,
            r.file_type_name@ == match found_type {
                Some(t) => t@,
                None => "unknown"@,
            },
            r.file_system_id == file.file_system_id,
            r.created_at == file.created_at,
            r.updated_at == file.updated_at,
            r.tags == tags,
    {
        let file_type_name = match found_type {
            Some(t) => t,
            None => String::from_str("unknown"),
        };
        FileWithDetails {
            id: file.id,
            name: file.name,
            path: file.path,
            content_hash: file.content_hash,
            identity_hash: file.identity_hash,
            file_type_name,
            file_system_id: file.file_system_id,
            created_at: file.created_at,
            updated_at: file.updated_at,
            tags,
        }
    }
}

/// Figures of the whole catalogue.
pub struct DatabaseStats {
    pub total_files: u64,
    pub total_tags: u64,
    pub total_file_types: u64,
    pub total_file_tag_relationships: u64,
    pub files_by_type: Vec<FileTypeCount>,
    pub most_used_tags: Vec<TagUsageCount>,
}

impl DatabaseStats {
    /// The statistics from the counts; the type and tag counts are ordered
    /// from the most frequent down.
    pub fn assemble(
        total_files: u64,
        total_tags: u64,
        total_file_types: u64,
        total_file_tag_relationships: u64,
        files_by_type: Vec<FileTypeCount>,
        most_used_tags: Vec<TagUsageCount>,
    ) -> (r: DatabaseStats)
        ensures
            r.total_files == total_files,
            r.total_tags == total_tags,
            r.total_file_types == total_file_types,
            r.total_file_tag_relationships == total_file_tag_relationships,
            r.files_by_type@ == sort_desc(files_by_type@, |t: FileTypeCount| type_count(t)),
            r.most_used_tags@ == sort_desc(most_used_tags@, |t: TagUsageCount| tag_count(t)),
    {
        DatabaseStats {
            total_files,
            total_tags,
            total_file_types,
            total_file_tag_relationships,
            files_by_type: sort_file_types(&files_by_type),
            most_used_tags: sort_tag_usage(&most_used_tags),
        }
    }
}

} // verus!
