//! What the query commands compute around the database: pages of results,
//! search patterns, groups of duplicates, the files of a folder and the
//! figures of the statistics.
use vstd::prelude::*;
use vstd::string::StringExecFns;
use crate::data::FolderInfo;
use crate::file_type::{ascii_lower, is_ascii_text, to_lowercase, unicode_lowercase};
use crate::paths::{
    extension, full_components, is_direct_child, path_extension, path_is_direct_child, paths_equal,
};
use crate::report::{display_of, FileInfo, FileRecord};

verus! {

// ----- pages -----

/// The page asked for and its size, with the number of rows skipped before it.
pub struct Pagination {
    pub page: u64,
    pub per_page: u64,
    pub offset: u64,
}

/// The page size used: 50 by default, at most 200.
pub open spec fn spec_per_page(per_page: Option<u64>) -> u64 {
    let p = match per_page {
        Some(p) => p,
        None => 50,
    };
    if p < 200 {
        p
    } else {
        200
    }
}

/// The page used: the first by default.
pub open spec fn spec_page(page: Option<u64>) -> u64 {
    match page {
        Some(p) => p,
        None => 1,
    }
}

/// The pagination of a request: pages count from one; the page size is 50
/// by default and at most 200. Page zero is not a page.
pub fn pagination(page: Option<u64>, per_page: Option<u64>) -> (r: Pagination)
    requires
        spec_page(page) >= 1,
        (spec_page(page) - 1) * spec_per_page(per_page) <= u64::MAX,
    ensures
        r.page == spec_page(page),
        r.per_page == spec_per_page(per_page),
        r.offset == (r.page - 1) * r.per_page,
{
    let page = match page {
        Some(p) => p,
        None => 1,
    };
    let per_page = limit_or(per_page, 50);
    let offset = (page - 1) * per_page;
    Pagination { page, per_page, offset }
}

/// `value`, or `default` where there is none, capped at 200.
fn limit_or(value: Option<u64>, default: u64) -> (r: u64)
    ensures
        r == ({
            let p = match value {
                Some(p) => p,
                None => default,
            };
            if p < 200 {
                p
            } else {
                200
            }
        }),
{
    let p = match value {
        Some(p) => p,
        None => default,
    };
    if p < 200 {
        p
    } else {
        200
    }
}

/// How many of the most recent files a listing returns: 50 by default, at
/// most 200.
pub fn recent_limit(limit: Option<u64>) -> (r: u64)
    ensures
        r == spec_per_page(limit),
{
    limit_or(limit, 50)
}

/// The number of pages of `per_page` rows that hold `total_count` rows.
pub fn total_pages(total_count: u64, per_page: u64) -> (r: u64)
    requires
        per_page > 0,
        total_count + per_page <= u64::MAX,
    ensures
        r == (total_count + per_page - 1) / (per_page as int),
{
    (total_count + per_page - 1) / per_page
}

/// The page count is the least number of pages that hold every row: `r`
/// pages hold them all, and one page fewer would not.
pub proof fn lemma_total_pages_is_least(total_count: nat, per_page: nat)
    requires
        per_page > 0,
    ensures
        ({
            let r = (total_count + per_page - 1) / (per_page as int);
            &&& r * per_page >= total_count
            &&& r == 0 || (r - 1) * per_page < total_count
        }),
{
    let r = (total_count + per_page - 1) / (per_page as int);
    assert(r * per_page >= total_count && (r == 0 || (r - 1) * per_page < total_count)) by (nonlinear_arith)
        requires
            per_page > 0,
            r == (total_count + per_page - 1) / (per_page as int),
            total_count >= 0,
    ;
}

/// A page of results, with the figures of the whole result.
pub struct SearchResults<T> {
    pub items: Vec<T>,
    pub total_count: u64,
    pub page: u64,
    pub per_page: u64,
    pub total_pages: u64,
}

impl<T> SearchResults<T> {
    /// The page `items` of a result of `total_count` rows.
    pub fn new(items: Vec<T>, total_count: u64, pages: &Pagination) -> (r: SearchResults<T>)
        requires
            pages.per_page > 0,
            total_count + pages.per_page <= u64::MAX,
        ensures
            r.items == items,
            r.total_count == total_count,
            r.page == pages.page,
            r.per_page == pages.per_page,
            r.total_pages == (total_count + pages.per_page - 1) / (pages.per_page as int),
    {
        let n = total_pages(total_count, pages.per_page);
        SearchResults { items, total_count, page: pages.page, per_page: pages.per_page, total_pages: n }
    }
}

// ----- patterns -----

/// A `LIKE` pattern matching texts that contain `text`.
pub fn contains_pattern(text: &str) -> (r: String)
    ensures
        r@ == "%"@ + text@ + "%"@,
{
    String::from_str("%").concat(text).concat("%")
}

/// A `LIKE` pattern matching texts that begin with `text`.
pub fn prefix_pattern(text: &str) -> (r: String)
    ensures
        r@ == text@ + "%"@,
{
    String::from_str(text).concat("%")
}

// ----- search filters -----

/// Filters of a file search.
pub struct FileSearchFilters {
    pub name_pattern: Option<String>,
    pub file_type: Option<String>,
    pub path_pattern: Option<String>,
    pub tags: Option<Vec<String>>,
    /// Whether a file must carry all the tags (else any of them).
    pub require_all_tags: Option<bool>,
    pub created_after: Option<String>,
    pub created_before: Option<String>,
    pub updated_after: Option<String>,
    pub updated_before: Option<String>,
}

/// How the tags of a search select files.
pub enum TagMatch {
    /// Files carrying every one of the tags.
    All(Vec<String>),
    /// Files carrying at least one of the tags.
    Any(Vec<String>),
}

/// The conditions a search puts on the files: `LIKE` patterns, a type name,
/// bounds on the timestamps (in seconds, see [`parsed_datetime`]) and tags.
pub struct SearchPlan {
    pub name_like: Option<String>,
    pub path_like: Option<String>,
    pub file_type: Option<String>,
    pub created_after: Option<i64>,
    pub created_before: Option<i64>,
    pub updated_after: Option<i64>,
    pub updated_before: Option<i64>,
    pub tags: Option<TagMatch>,
}

/// What `chrono::NaiveDateTime::parse_from_str` reads from `text` in the
/// format `%Y-%m-%d %H:%M:%S`, as seconds since 1970-01-01 00:00:00; `None`
/// where it is no such date and time.
pub uninterp spec fn parsed_datetime(text: Seq<char>) -> Option<i64>;

/// `chrono::NaiveDateTime::parse_from_str` with the format
/// `%Y-%m-%d %H:%M:%S`, the result taken as seconds since 1970-01-01 00:00:00
/// (`and_utc().timestamp()`). Claimed: the result is a function of the text
/// alone, `None` where parsing fails.
#[verifier::external_body]
fn parse_datetime(text: &str) -> (r: Option<i64>)
    ensures
        r == parsed_datetime(text@),
{
    match chrono::NaiveDateTime::parse_from_str(text, "%Y-%m-%d %H:%M:%S") {
        Ok(d) => Some(d.and_utc().timestamp()),
        Err(_) => None,
    }
}

/// The bound that a date filter sets: the parsed moment, and no bound where the
/// filter is absent or its text is not a date and time.
pub open spec fn date_bound(text: Option<String>) -> Option<i64> {
    match text {
        Some(t) => parsed_datetime(t@),
        None => None,
    }
}

fn bound_of(text: &Option<String>) -> (r: Option<i64>)
    ensures
        r == date_bound(*text),
{
    match text {
        Some(t) => parse_datetime(t.as_str()),
        None => None,
    }
}

fn like_of(text: &Option<String>) -> (r: Option<String>)
    ensures
        match *text {
            Some(t) => r matches Some(p) && p@ == "%"@ + t@ + "%"@,
            None => r is None,
        },
{
    match text {
        Some(t) => Some(contains_pattern(t.as_str())),
        None => None,
    }
}

fn copy_texts(v: &Vec<String>) -> (r: Vec<String>)
    ensures
        r@ == v@,
{
    let mut out: Vec<String> = Vec::new();
    let mut i: usize = 0;
    while i < v.len()
        invariant
            i <= v.len(),
            out@ == v@.take(i as int),
        decreases v.len() - i,
    {
        out.push(v[i].clone());
        assert(v@.take(i + 1) =~= v@.take(i as int).push(v@[i as int]));
        i = i + 1;
    }
    assert(v@.take(v.len() as int) =~= v@);
    out
}

/// The conditions of a search: the name and path must contain the given
/// texts, the type must be the given one, the timestamps must lie within the
/// bounds that parse, and a non-empty list of tags selects files carrying all
/// of them where `require_all_tags` says so, and any of them otherwise.
pub fn search_plan(filters: &FileSearchFilters) -> (r: SearchPlan)
    ensures
        match filters.name_pattern {
            Some(t) => r.name_like matches Some(p) && p@ == "%"@ + t@ + "%"@,
            None => r.name_like is None,
        },
        match filters.path_pattern {
            Some(t) => r.path_like matches Some(p) && p@ == "%"@ + t@ + "%"@,
            None => r.path_like is None,
        },
        r.file_type == filters.file_type,
        r.created_after == date_bound(filters.created_after),
        r.created_before == date_bound(filters.created_before),
        r.updated_after == date_bound(filters.updated_after),
        r.updated_before == date_bound(filters.updated_before),
        match filters.tags {
            Some(v) => if v@.len() == 0 {
                r.tags is None
            } else if filters.require_all_tags == Some(true) {
                r.tags matches Some(m) && m matches TagMatch::All(w) && w@ == v@
            } else {
                r.tags matches Some(m) && m matches TagMatch::Any(w) && w@ == v@
            },
            None => r.tags is None,
        },
{
    let tags = match &filters.tags {
        Some(v) => {
            if v.len() == 0 {
                None
            } else {
                let all = match filters.require_all_tags {
                    Some(b) => b,
                    None => false,
                };
                if all {
                    Some(TagMatch::All(copy_texts(v)))
                } else {
                    Some(TagMatch::Any(copy_texts(v)))
                }
            }
        },
        None => None,
    };
    SearchPlan {
        name_like: like_of(&filters.name_pattern),
        path_like: like_of(&filters.path_pattern),
        file_type: match &filters.file_type {
            Some(t) => Some(t.clone()),
            None => None,
        },
        created_after: bound_of(&filters.created_after),
        created_before: bound_of(&filters.created_before),
        updated_after: bound_of(&filters.updated_after),
        updated_before: bound_of(&filters.updated_before),
        tags,
    }
}

/// The filters of a search by tags alone.
pub fn tag_search_filters(tag_names: Vec<String>, require_all_tags: Option<bool>) -> (r: FileSearchFilters)
    ensures
        r.name_pattern is None,
        r.file_type is None,
        r.path_pattern is None,
        r.tags == Some(tag_names),
        r.require_all_tags == require_all_tags,
        r.created_after is None,
        r.created_before is None,
        r.updated_after is None,
        r.updated_before is None,
{
    FileSearchFilters {
        name_pattern: None,
        file_type: None,
        path_pattern: None,
        tags: Some(tag_names),
        require_all_tags,
        created_after: None,
        created_before: None,
        updated_after: None,
        updated_before: None,
    }
}

// ----- the files of a folder -----

/// The files among `files` that lie directly in `folder`, in order.
pub open spec fn direct_files(files: Seq<FileRecord>, folder: Seq<char>) -> Seq<FileRecord>
    decreases files.len(),
{
    if files.len() == 0 {
        seq![]
    } else {
        direct_files(files.drop_last(), folder) + if is_direct_child(files.last().path@, folder) {
            seq![files.last()]
        } else {
            seq![]
        }
    }
}

/// The display form of the files among `files` that lie directly in the
/// folder `folder_path` (not in a subfolder of it), in order.
pub fn files_directly_in(files: Vec<FileRecord>, folder_path: &str) -> (r: Vec<FileInfo>)
    ensures
        r.len() == direct_files(files@, folder_path@).len(),
        forall|i: int|
            0 <= i < r.len() ==> {
                let f = #[trigger] direct_files(files@, folder_path@)[i];
                &&& r@[i].id == f.id
                &&& r@[i].name == f.name
                &&& r@[i].path == f.path
                &&& r@[i].content_hash == f.content_hash
                &&& r@[i].identity_hash == f.identity_hash
                &&& r@[i].file_type_id == f.file_type_id
                &&& r@[i].file_system_id == f.file_system_id
                &&& r@[i].created_at == f.created_at
                &&& r@[i].updated_at == f.updated_at
            },
{
    let mut out: Vec<FileInfo> = Vec::new();
    let mut i: usize = 0;
    while i < files.len()
        invariant
            i <= files.len(),
            out.len() == direct_files(files@.take(i as int), folder_path@).len(),
            forall|k: int|
                0 <= k < out.len() ==> {
                    let f = #[trigger] direct_files(files@.take(i as int), folder_path@)[k];
                    &&& out@[k].id == f.id
                    &&& out@[k].name == f.name
                    &&& out@[k].path == f.path
                    &&& out@[k].content_hash == f.content_hash
                    &&& out@[k].identity_hash == f.identity_hash
                    &&& out@[k].file_type_id == f.file_type_id
                    &&& out@[k].file_system_id == f.file_system_id
                    &&& out@[k].created_at == f.created_at
                    &&& out@[k].updated_at == f.updated_at
                },
        decreases files.len() - i,
    {
        assert(files@.take(i + 1).drop_last() =~= files@.take(i as int));
        assert(files@.take(i + 1).last() == files@[i as int]);
        let ghost before = direct_files(files@.take(i as int), folder_path@);
        if path_is_direct_child(files[i].path.as_str(), folder_path) {
            let f = files[i].clone();
            out.push(FileInfo::from_record(f));
            assert(direct_files(files@.take(i + 1), folder_path@) =~= before.push(files@[i as int]));
        } else {
            assert(direct_files(files@.take(i + 1), folder_path@) =~= before);
        }
        i = i + 1;
    }
    assert(files@.take(files.len() as int) =~= files@);
    out
}

/// The lower-cased extensions of `paths`, each once, in the order they first
/// occur.
pub open spec fn distinct_types(paths: Seq<Seq<char>>) -> Seq<Seq<char>>
    decreases paths.len(),
{
    if paths.len() == 0 {
        seq![]
    } else {
        let before = distinct_types(paths.drop_last());
        match extension(paths.last()) {
            Some(e) => if before.contains(unicode_lowercase(e)) {
                before
            } else {
                before.push(unicode_lowercase(e))
            },
            None => before,
        }
    }
}

/// Whether every extension among `paths` is ASCII.
pub open spec fn ascii_extensions(paths: Seq<Seq<char>>) -> bool {
    forall|i: int|
        0 <= i < paths.len() ==> (extension(#[trigger] paths[i]) matches Some(e) ==> is_ascii_text(e))
}

/// [`distinct_types`] where the extensions are ASCII: each lower-cased letter
/// by letter.
pub open spec fn ascii_distinct_types(paths: Seq<Seq<char>>) -> Seq<Seq<char>>
    decreases paths.len(),
{
    if paths.len() == 0 {
        seq![]
    } else {
        let before = ascii_distinct_types(paths.drop_last());
        match extension(paths.last()) {
            Some(e) => if before.contains(ascii_lower(e)) {
                before
            } else {
                before.push(ascii_lower(e))
            },
            None => before,
        }
    }
}

/// The texts held by `v`.
pub open spec fn texts(v: Seq<String>) -> Seq<Seq<char>> {
    Seq::new(v.len(), |i: int| v[i]@)
}

/// The types of the files of a folder summary: the lower-cased extensions of
/// their paths, each once, in the order they first occur. ASCII extensions
/// are lower-cased letter by letter.
pub fn summary_file_types(paths: &Vec<String>) -> (r: Vec<String>)
    ensures
        texts(r@) == distinct_types(texts(paths@)),
        ascii_extensions(texts(paths@)) ==> texts(r@) == ascii_distinct_types(texts(paths@)),
{
    let mut out: Vec<String> = Vec::new();
    let mut i: usize = 0;
    while i < paths.len()
        invariant
            i <= paths.len(),
            texts(out@) == distinct_types(texts(paths@).take(i as int)),
            ascii_extensions(texts(paths@).take(i as int)) ==> distinct_types(texts(paths@).take(i as int))
                == ascii_distinct_types(texts(paths@).take(i as int)),
        decreases paths.len() - i,
    {
        let ghost prefix = texts(paths@).take(i as int);
        let ghost next = texts(paths@).take(i + 1);
        assert(next.drop_last() =~= prefix);
        assert(next.last() == paths@[i as int]@);
        assert(ascii_extensions(next) ==> ascii_extensions(prefix)) by {
            if ascii_extensions(next) {
                assert forall|j: int| 0 <= j < prefix.len() implies (extension(#[trigger] prefix[j]) matches Some(
                    e,
                ) ==> is_ascii_text(e)) by {
                    assert(prefix[j] == next[j]);
                }
            }
        }
        match path_extension(paths[i].as_str()) {
            Some(e) => {
                let lower = to_lowercase(e.as_str());
                proof {
                    if ascii_extensions(next) {
                        assert(extension(next[i as int]) matches Some(x) ==> is_ascii_text(x));
                        assert(lower@ == ascii_lower(e@));
                    }
                }
                let mut found = false;
                let mut k: usize = 0;
                while k < out.len()
                    invariant
                        k <= out.len(),
                        found == exists|m: int| 0 <= m < k && out@[m]@ == lower@,
                    decreases out.len() - k,
                {
                    if out[k] == lower {
                        found = true;
                    }
                    k = k + 1;
                }
                assert(found == texts(out@).contains(lower@)) by {
                    if found {
                        let m = choose|m: int| 0 <= m < out.len() && out@[m]@ == lower@;
                        assert(texts(out@)[m] == lower@);
                    }
                    if texts(out@).contains(lower@) {
                        let m = choose|m: int| 0 <= m < texts(out@).len() && texts(out@)[m] == lower@;
                        assert(out@[m]@ == lower@);
                    }
                }
                if !found {
                    let ghost before = texts(out@);
                    out.push(lower);
                    assert(texts(out@) =~= before.push(lower@));
                }
            },
            None => {},
        }
        i = i + 1;
    }
    assert(texts(paths@).take(paths.len() as int) =~= texts(paths@));
    out
}

/// The sum of the sizes that could be read.
pub open spec fn known_total(sizes: Seq<Option<u64>>) -> int
    decreases sizes.len(),
{
    if sizes.len() == 0 {
        0
    } else {
        known_total(sizes.drop_last()) + match sizes.last() {
            Some(n) => n as int,
            None => 0,
        }
    }
}

proof fn lemma_known_total_monotone(sizes: Seq<Option<u64>>, i: int)
    requires
        0 <= i <= sizes.len(),
    ensures
        known_total(sizes.take(i)) <= known_total(sizes),
        known_total(sizes.take(i)) >= 0,
    decreases sizes.len() - i,
{
    if i < sizes.len() {
        lemma_known_total_monotone(sizes, i + 1);
        assert(sizes.take(i + 1).drop_last() =~= sizes.take(i));
        lemma_known_total_nonneg(sizes.take(i));
    } else {
        assert(sizes.take(i) =~= sizes);
        lemma_known_total_nonneg(sizes);
    }
}

proof fn lemma_known_total_nonneg(sizes: Seq<Option<u64>>)
    ensures
        known_total(sizes) >= 0,
    decreases sizes.len(),
{
    if sizes.len() > 0 {
        lemma_known_total_nonneg(sizes.drop_last());
    }
}

/// The total size of the files of a folder: the sum of the sizes that could
/// be read (`None` where reading the file's metadata failed).
pub fn summary_total_size(sizes: &Vec<Option<u64>>) -> (r: u64)
    requires
        known_total(sizes@) <= u64::MAX,
    ensures
        r == known_total(sizes@),
{
    let mut total: u64 = 0;
    let mut i: usize = 0;
    while i < sizes.len()
        invariant
            i <= sizes.len(),
            known_total(sizes@) <= u64::MAX,
            total == known_total(sizes@.take(i as int)),
        decreases sizes.len() - i,
    {
        proof {
            lemma_known_total_monotone(sizes@, i + 1);
        }
        assert(sizes@.take(i + 1).drop_last() =~= sizes@.take(i as int));
        match sizes[i] {
            Some(n) => {
                total = total + n;
            },
            None => {},
        }
        i = i + 1;
    }
    assert(sizes@.take(sizes.len() as int) =~= sizes@);
    total
}

// ----- folders -----

/// Counts of the folders of the catalogue.
pub struct FolderStatistics {
    pub total_folders: u64,
    pub root_folders: u64,
    pub nested_folders: u64,
}

/// The folder counts: those that are not roots are nested.
pub fn folder_statistics(total_folders: u64, root_folders: u64) -> (r: FolderStatistics)
    requires
        root_folders <= total_folders,
    ensures
        r.total_folders == total_folders,
        r.root_folders == root_folders,
        r.nested_folders == total_folders - root_folders,
{
    FolderStatistics { total_folders, root_folders, nested_folders: total_folders - root_folders }
}

/// Whether `folder_path` is one of the library's root folders `roots`, as
/// `PathBuf` compares paths; a root folder has no parent folder.
pub fn is_library_root(folder_path: &str, roots: &Vec<String>) -> (r: bool)
    ensures
        r == exists|i: int| 0 <= i < roots.len() && full_components((#[trigger] roots@[i])@) == full_components(folder_path@),
{
    let mut i: usize = 0;
    while i < roots.len()
        invariant
            i <= roots.len(),
            forall|k: int| 0 <= k < i ==> full_components((#[trigger] roots@[k])@) != full_components(folder_path@),
        decreases roots.len() - i,
    {
        if paths_equal(roots[i].as_str(), folder_path) {
            return true;
        }
        i = i + 1;
    }
    false
}

/// Whether a folder is removed as empty: it holds no file and no subfolder.
pub fn is_empty_folder(file_count: u64, subfolder_count: u64) -> (r: bool)
    ensures
        r == (file_count == 0 && subfolder_count == 0),
{
    file_count == 0 && subfolder_count == 0
}

/// The breadcrumb of a folder from the folders met walking up from it: the
/// root first, the folder last.
pub fn hierarchy_from_walk(walk: Vec<FolderInfo>) -> (r: Vec<FolderInfo>)
    ensures
        r@ == walk@.reverse(),
{
    let mut rest = walk;
    let ghost walked = rest@;
    let mut out: Vec<FolderInfo> = Vec::new();
    while rest.len() > 0
        invariant
            rest@ == walked.take(rest.len() as int),
            rest.len() <= walked.len(),
            out.len() == walked.len() - rest.len(),
            forall|k: int| 0 <= k < out.len() ==> out@[k] == walked[walked.len() - 1 - k],
        decreases rest.len(),
    {
        let ghost n = rest.len();
        let f = rest.pop().unwrap();
        assert(f == walked[n - 1]);
        assert(rest@ =~= walked.take(n - 1));
        out.push(f);
    }
    assert(out@ =~= walked.reverse());
    out
}

// ----- tags -----

/// Whether a tag may be added to a file: the file and the tag must exist and
/// the file must not carry the tag yet.
pub fn tag_link_check(file_found: bool, tag_found: bool, already_linked: bool) -> (r: Result<(), String>)
    ensures
        !file_found ==> (r matches Err(m) && m@ == "File not found"@),
        file_found && !tag_found ==> (r matches Err(m) && m@ == "Tag not found"@),
        file_found && tag_found && already_linked ==> (r matches Err(m) && m@
            == "Tag already added to file"@),
        file_found && tag_found && !already_linked ==> (r is Ok),
{
    if !file_found {
        return Err(String::from_str("File not found"));
    }
    if !tag_found {
        return Err(String::from_str("Tag not found"));
    }
    if already_linked {
        return Err(String::from_str("Tag already added to file"));
    }
    Ok(())
}

/// Whether a tag may be renamed: it must exist (`found`; the text of the
/// database error where looking it up failed) and no other tag may bear the
/// new name.
pub fn tag_rename_check(found: Result<bool, String>, name_taken: bool) -> (r: Result<(), String>)
    ensures
        match found {
            Ok(false) => r matches Err(m) && m@ == "Tag not found"@,
            Err(e) => r matches Err(m) && m@ == "Database error: "@ + e@,
            Ok(true) => if name_taken {
                r matches Err(m) && m@ == "Tag name already exists"@
            } else {
                r is Ok
            },
        },
{
    match found {
        Ok(false) => Err(String::from_str("Tag not found")),
        Err(e) => Err(String::from_str("Database error: ").concat(e.as_str())),
        Ok(true) => if name_taken {
            Err(String::from_str("Tag name already exists"))
        } else {
            Ok(())
        },
    }
}

// ----- duplicates -----

/// The content hashes of `files`, each once, in the order they first occur.
pub open spec fn distinct_hashes(files: Seq<FileRecord>) -> Seq<Seq<char>>
    decreases files.len(),
{
    if files.len() == 0 {
        seq![]
    } else {
        let before = distinct_hashes(files.drop_last());
        if before.contains(files.last().content_hash@) {
            before
        } else {
            before.push(files.last().content_hash@)
        }
    }
}

/// The files of `files` with the content hash `h`, in order.
pub open spec fn with_hash(files: Seq<FileRecord>, h: Seq<char>) -> Seq<FileRecord> {
    files.filter(|f: FileRecord| f.content_hash@ == h)
}

/// The groups of files that share a content hash with another file: one
/// group per hash, in the order the hashes first occur, each holding its files
/// in order.
pub open spec fn duplicate_groups(files: Seq<FileRecord>) -> Seq<Seq<FileRecord>> {
    distinct_hashes(files).map_values(|h: Seq<char>| with_hash(files, h)).filter(
        |g: Seq<FileRecord>| g.len() > 1,
    )
}

fn distinct_content_hashes(files: &Vec<FileRecord>) -> (r: Vec<String>)
    ensures
        texts(r@) == distinct_hashes(files@),
{
    let mut out: Vec<String> = Vec::new();
    let mut i: usize = 0;
    while i < files.len()
        invariant
            i <= files.len(),
            texts(out@) == distinct_hashes(files@.take(i as int)),
        decreases files.len() - i,
    {
        assert(files@.take(i + 1).drop_last() =~= files@.take(i as int));
        assert(files@.take(i + 1).last() == files@[i as int]);
        let h = &files[i].content_hash;
        let mut found = false;
        let mut k: usize = 0;
        while k < out.len()
            invariant
                k <= out.len(),
                found == exists|m: int| 0 <= m < k && out@[m]@ == h@,
            decreases out.len() - k,
        {
            if out[k] == *h {
                found = true;
            }
            k = k + 1;
        }
        assert(found == texts(out@).contains(h@)) by {
            if found {
                let m = choose|m: int| 0 <= m < out.len() && out@[m]@ == h@;
                assert(texts(out@)[m] == h@);
            }
            if texts(out@).contains(h@) {
                let m = choose|m: int| 0 <= m < texts(out@).len() && texts(out@)[m] == h@;
                assert(out@[m]@ == h@);
            }
        }
        if !found {
            let ghost before = texts(out@);
            out.push(h.clone());
            assert(texts(out@) =~= before.push(h@));
        }
        i = i + 1;
    }
    assert(files@.take(files.len() as int) =~= files@);
    out
}

fn files_with_hash(files: &Vec<FileRecord>, h: &String) -> (r: Vec<FileRecord>)
    ensures
        r@ == with_hash(files@, h@),
{
    let mut out: Vec<FileRecord> = Vec::new();
    let mut i: usize = 0;
    while i < files.len()
        invariant
            i <= files.len(),
            out@ == with_hash(files@.take(i as int), h@),
        decreases files.len() - i,
    {
        assert(files@.take(i + 1).drop_last() =~= files@.take(i as int));
        assert(files@.take(i + 1).last() == files@[i as int]);
        let ghost pred = |f: FileRecord| f.content_hash@ == h@;
        let ghost prefix = files@.take(i + 1);
        assert(with_hash(prefix, h@) == if pred(prefix.last()) {
            prefix.drop_last().filter(pred).push(prefix.last())
        } else {
            prefix.drop_last().filter(pred)
        }) by {
            reveal(Seq::filter);
        }
        if files[i].content_hash == *h {
            out.push(files[i].clone());
        }
        i = i + 1;
    }
    assert(files@.take(files.len() as int) =~= files@);
    out
}

fn displays(v: Vec<FileRecord>) -> (r: Vec<FileInfo>)
    ensures
        r@ == v@.map_values(|f: FileRecord| display_of(f)),
{
    let mut out: Vec<FileInfo> = Vec::new();
    let mut i: usize = 0;
    while i < v.len()
        invariant
            i <= v.len(),
            out@ == v@.take(i as int).map_values(|f: FileRecord| display_of(f)),
        decreases v.len() - i,
    {
        out.push(FileInfo::from_record(v[i].clone()));
        assert(v@.take(i + 1).map_values(|f: FileRecord| display_of(f)) =~= v@.take(i as int).map_values(
            |f: FileRecord| display_of(f),
        ).push(display_of(v@[i as int])));
        i = i + 1;
    }
    assert(v@.take(v.len() as int) =~= v@);
    out
}

/// The display form of each group of files.
pub open spec fn display_groups(g: Seq<Seq<FileRecord>>) -> Seq<Seq<FileInfo>> {
    g.map_values(|s: Seq<FileRecord>| s.map_values(|f: FileRecord| display_of(f)))
}

/// The groups of files with the same content (see [`duplicate_groups`]), in
/// their display form.
pub fn find_duplicate_groups(files: Vec<FileRecord>) -> (r: Vec<Vec<FileInfo>>)
    ensures
        r@.len() == duplicate_groups(files@).len(),
        forall|i: int| 0 <= i < r@.len() ==> (#[trigger] r@[i])@ == display_groups(duplicate_groups(files@))[i],
{
    let hashes = distinct_content_hashes(&files);
    let ghost all = distinct_hashes(files@).map_values(|h: Seq<char>| with_hash(files@, h));
    let mut out: Vec<Vec<FileInfo>> = Vec::new();
    let ghost mut picked: Seq<Seq<FileRecord>> = seq![];
    let mut k: usize = 0;
    while k < hashes.len()
        invariant
            k <= hashes.len(),
            texts(hashes@) == distinct_hashes(files@),
            all == distinct_hashes(files@).map_values(|h: Seq<char>| with_hash(files@, h)),
            picked == all.take(k as int).filter(|g: Seq<FileRecord>| g.len() > 1),
            out@.len() == picked.len(),
            forall|i: int| 0 <= i < out@.len() ==> (#[trigger] out@[i])@ == display_groups(picked)[i],
        decreases hashes.len() - k,
    {
        let group = files_with_hash(&files, &hashes[k]);
        assert(all[k as int] == with_hash(files@, hashes@[k as int]@));
        assert(all.take(k + 1).drop_last() =~= all.take(k as int));
        assert(all.take(k + 1).last() == all[k as int]);
        let ghost gpred = |g: Seq<FileRecord>| g.len() > 1;
        let ghost prefix = all.take(k + 1);
        assert(prefix.filter(gpred) == if gpred(prefix.last()) {
            prefix.drop_last().filter(gpred).push(prefix.last())
        } else {
            prefix.drop_last().filter(gpred)
        }) by {
            reveal(Seq::filter);
        }
        if group.len() > 1 {
            let shown = displays(group);
            proof {
                picked = picked.push(all[k as int]);
            }
            out.push(shown);
        }
        k = k + 1;
    }
    assert(all.take(hashes.len() as int) =~= all);
    out
}

proof fn lemma_filter_within<A>(s: Seq<A>, pred: spec_fn(A) -> bool)
    ensures
        forall|i: int| 0 <= i < s.filter(pred).len() ==> s.contains(#[trigger] s.filter(pred)[i]),
    decreases s.len(),
{
    reveal(Seq::filter);
    if s.len() > 0 {
        let p = s.drop_last();
        lemma_filter_within(p, pred);
        assert forall|i: int| 0 <= i < s.filter(pred).len() implies s.contains(#[trigger] s.filter(pred)[i]) by {
            let f = s.filter(pred);
            if pred(s.last()) && i == f.len() - 1 {
                assert(s[s.len() - 1] == f[i]);
            } else {
                assert(f[i] == p.filter(pred)[i]);
                let k = choose|k: int| 0 <= k < p.len() && p[k] == p.filter(pred)[i];
                assert(s[k] == f[i]);
            }
        }
    }
}

proof fn lemma_with_hash_elements(files: Seq<FileRecord>, h: Seq<char>)
    ensures
        forall|j: int| 0 <= j < with_hash(files, h).len() ==> (#[trigger] with_hash(files, h)[j]).content_hash@ == h,
    decreases files.len(),
{
    reveal(Seq::filter);
    if files.len() > 0 {
        lemma_with_hash_elements(files.drop_last(), h);
        assert(with_hash(files, h) == if files.last().content_hash@ == h {
            with_hash(files.drop_last(), h).push(files.last())
        } else {
            with_hash(files.drop_last(), h)
        });
    }
}

/// Every group of duplicates holds at least two files, all with the same
/// content hash.
pub proof fn lemma_duplicate_groups_share_hash(files: Seq<FileRecord>)
    ensures
        forall|i: int|
            0 <= i < duplicate_groups(files).len() ==> {
                let g = #[trigger] duplicate_groups(files)[i];
                &&& g.len() > 1
                &&& forall|j: int| 0 <= j < g.len() ==> (#[trigger] g[j]).content_hash@ == g[0].content_hash@
            },
{
    let gpred = |g: Seq<FileRecord>| g.len() > 1;
    let mapped = distinct_hashes(files).map_values(|h: Seq<char>| with_hash(files, h));
    assert forall|i: int| 0 <= i < duplicate_groups(files).len() implies {
        let g = #[trigger] duplicate_groups(files)[i];
        &&& g.len() > 1
        &&& forall|j: int| 0 <= j < g.len() ==> (#[trigger] g[j]).content_hash@ == g[0].content_hash@
    } by {
        let g = duplicate_groups(files)[i];
        mapped.lemma_filter_pred(gpred, i);
        lemma_filter_within(mapped, gpred);
        assert(mapped.contains(g));
        let k = choose|k: int| 0 <= k < mapped.len() && mapped[k] == g;
        let h = distinct_hashes(files)[k];
        assert(g == with_hash(files, h));
        lemma_with_hash_elements(files, h);
    }
}

} // verus!
