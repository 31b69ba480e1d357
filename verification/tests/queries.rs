use hestia::queries::{search_plan, tag_search_filters, FileSearchFilters, TagMatch};
use hestia::queries::is_library_root;
use hestia::data::FolderInfo;
use hestia::queries::{
    contains_pattern, files_directly_in, find_duplicate_groups, folder_statistics,
    hierarchy_from_walk, is_empty_folder, pagination, prefix_pattern, recent_limit,
    summary_file_types, summary_total_size, tag_link_check, tag_rename_check, total_pages,
    SearchResults,
};
use hestia::report::FileRecord;
use hestia::stats::{
    sort_file_types, sort_tag_usage, DatabaseStats, FileTagInfo, FileTypeCount, FileWithDetails,
    TagInfo, TagRecord, TagUsageCount,
};

fn record(id: i32, path: &str, hash: &str) -> FileRecord {
    FileRecord {
        id,
        name: path.rsplit('/').next().unwrap().to_string(),
        path: path.to_string(),
        content_hash: hash.to_string(),
        identity_hash: format!("i{}", id),
        file_type_id: 2,
        file_system_id: id * 10,
        created_at: "c".to_string(),
        updated_at: "u".to_string(),
    }
}

#[test]
fn pagination_defaults_and_caps() {
    let p = pagination(None, None);
    assert_eq!((p.page, p.per_page, p.offset), (1, 50, 0));
    let p = pagination(Some(3), Some(500));
    assert_eq!((p.page, p.per_page, p.offset), (3, 200, 400));
    let p = pagination(Some(2), Some(10));
    assert_eq!(p.offset, 10);
    assert_eq!(recent_limit(None), 50);
    assert_eq!(recent_limit(Some(1000)), 200);
    assert_eq!(recent_limit(Some(7)), 7);
}

#[test]
fn page_count_rounds_up() {
    assert_eq!(total_pages(0, 50), 0);
    assert_eq!(total_pages(1, 50), 1);
    assert_eq!(total_pages(50, 50), 1);
    assert_eq!(total_pages(51, 50), 2);
    assert_eq!(total_pages(400, 200), 2);
    let pages = pagination(Some(2), Some(20));
    let r: SearchResults<i32> = SearchResults::new(vec![1, 2], 41, &pages);
    assert_eq!((r.total_count, r.page, r.per_page, r.total_pages), (41, 2, 20, 3));
    assert_eq!(r.items, vec![1, 2]);
}

#[test]
fn like_patterns() {
    assert_eq!(contains_pattern("cat"), "%cat%");
    assert_eq!(prefix_pattern("/photos"), "/photos%");
    assert_eq!(contains_pattern(""), "%%");
}

#[test]
fn only_direct_children_are_listed() {
    let files = vec![
        record(1, "/lib/a.txt", "x"),
        record(2, "/lib/sub/b.txt", "y"),
        record(3, "/lib/c.txt", "z"),
        record(4, "/library/d.txt", "w"),
    ];
    let r = files_directly_in(files, "/lib/");
    let ids: Vec<i32> = r.iter().map(|f| f.id).collect();
    assert_eq!(ids, vec![1, 3]);
    assert_eq!(r[1].path, "/lib/c.txt");
    assert_eq!(r[1].file_system_id, 30);
}

#[test]
fn duplicates_are_grouped_by_content_hash() {
    let files = vec![
        record(1, "/a", "h1"),
        record(2, "/b", "h2"),
        record(3, "/c", "h1"),
        record(4, "/d", "h3"),
        record(5, "/e", "h2"),
        record(6, "/f", "h1"),
    ];
    let groups = find_duplicate_groups(files);
    let ids: Vec<Vec<i32>> = groups.iter().map(|g| g.iter().map(|f| f.id).collect()).collect();
    assert_eq!(ids, vec![vec![1, 3, 6], vec![2, 5]]);
    assert!(find_duplicate_groups(vec![record(1, "/a", "h")]).is_empty());
}

#[test]
fn folder_summary_types_and_size() {
    let paths: Vec<String> = ["/d/a.JPG", "/d/b.jpg", "/d/c.txt", "/d/README", "/d/e.Txt"]
        .iter()
        .map(|s| s.to_string())
        .collect();
    assert_eq!(summary_file_types(&paths), vec!["jpg", "txt"]);
    assert_eq!(summary_total_size(&vec![Some(10), None, Some(5)]), 15);
    assert_eq!(summary_total_size(&vec![]), 0);
}

#[test]
fn folder_counts() {
    let s = folder_statistics(10, 3);
    assert_eq!((s.total_folders, s.root_folders, s.nested_folders), (10, 3, 7));
    assert!(is_empty_folder(0, 0));
    assert!(!is_empty_folder(1, 0));
    assert!(!is_empty_folder(0, 2));
}

fn folder(id: i32) -> FolderInfo {
    FolderInfo {
        id,
        name: format!("f{}", id),
        path: format!("/f{}", id),
        parent_folder_id: None,
        content_hash: String::new(),
        identity_hash: String::new(),
        structure_hash: String::new(),
        file_system_id: 0,
        created_at: String::new(),
        updated_at: String::new(),
    }
}

#[test]
fn breadcrumb_goes_from_root_to_folder() {
    let walk = vec![folder(3), folder(2), folder(1)];
    let ids: Vec<i32> = hierarchy_from_walk(walk).iter().map(|f| f.id).collect();
    assert_eq!(ids, vec![1, 2, 3]);
    assert!(hierarchy_from_walk(vec![]).is_empty());
}

#[test]
fn tag_checks() {
    assert_eq!(tag_link_check(false, true, false), Err("File not found".to_string()));
    assert_eq!(tag_link_check(true, false, false), Err("Tag not found".to_string()));
    assert_eq!(tag_link_check(true, true, true), Err("Tag already added to file".to_string()));
    assert_eq!(tag_link_check(true, true, false), Ok(()));
    assert_eq!(tag_rename_check(Ok(false), false), Err("Tag not found".to_string()));
    assert_eq!(tag_rename_check(Err("down".to_string()), false), Err("Database error: down".to_string()));
    assert_eq!(tag_rename_check(Ok(true), true), Err("Tag name already exists".to_string()));
    assert_eq!(tag_rename_check(Ok(true), false), Ok(()));
}

#[test]
fn statistics_are_ordered_by_count() {
    let types = vec![
        FileTypeCount { file_type: "a".to_string(), count: 1 },
        FileTypeCount { file_type: "b".to_string(), count: 5 },
        FileTypeCount { file_type: "c".to_string(), count: 1 },
        FileTypeCount { file_type: "d".to_string(), count: 3 },
    ];
    let sorted: Vec<String> = sort_file_types(&types).into_iter().map(|t| t.file_type).collect();
    assert_eq!(sorted, vec!["b", "d", "a", "c"]);
    let tags = vec![
        TagUsageCount { tag_name: "x".to_string(), file_count: 0 },
        TagUsageCount { tag_name: "y".to_string(), file_count: 2 },
        TagUsageCount { tag_name: "z".to_string(), file_count: 2 },
    ];
    let names: Vec<String> = sort_tag_usage(&tags).into_iter().map(|t| t.tag_name).collect();
    assert_eq!(names, vec!["y", "z", "x"]);
    let stats = DatabaseStats::assemble(4, 3, 2, 1, types, tags);
    assert_eq!(stats.files_by_type[0].count, 5);
    assert_eq!(stats.most_used_tags[2].tag_name, "x");
    assert_eq!((stats.total_files, stats.total_tags, stats.total_file_types, stats.total_file_tag_relationships), (4, 3, 2, 1));
}

#[test]
fn details_of_files_and_tags() {
    let tag = TagInfo::from_record(TagRecord {
        id: 1,
        name: "holiday".to_string(),
        created_at: "c".to_string(),
        updated_at: "u".to_string(),
    });
    assert_eq!(tag.name, "holiday");
    let d = FileWithDetails::assemble(record(9, "/p/x.png", "h"), None, vec![tag]);
    assert_eq!(d.file_type_name, "unknown");
    assert_eq!(d.tags.len(), 1);
    assert_eq!(d.id, 9);
    let d2 = FileWithDetails::assemble(record(9, "/p/x.png", "h"), Some("image_png".to_string()), vec![]);
    assert_eq!(d2.file_type_name, "image_png");
    let link = FileTagInfo::from_link(1, 2, 3);
    assert_eq!((link.id, link.file_id, link.tag_id), (1, 2, 3));
    assert!(link.file_name.is_none() && link.tag_name.is_none());
}

#[test]
fn search_plans_follow_the_filters() {
    let filters = FileSearchFilters {
        name_pattern: Some("cat".to_string()),
        file_type: Some("image_png".to_string()),
        path_pattern: None,
        tags: Some(vec!["a".to_string(), "b".to_string()]),
        require_all_tags: Some(true),
        created_after: Some("2024-01-02 03:04:05".to_string()),
        created_before: Some("yesterday".to_string()),
        updated_after: None,
        updated_before: Some("1970-01-01 00:00:00".to_string()),
    };
    let plan = search_plan(&filters);
    assert_eq!(plan.name_like.as_deref(), Some("%cat%"));
    assert!(plan.path_like.is_none());
    assert_eq!(plan.file_type.as_deref(), Some("image_png"));
    assert_eq!(plan.created_after, Some(1704164645));
    assert_eq!(plan.created_before, None);
    assert_eq!(plan.updated_after, None);
    assert_eq!(plan.updated_before, Some(0));
    match plan.tags {
        Some(TagMatch::All(v)) => assert_eq!(v, vec!["a", "b"]),
        _ => panic!("expected all tags"),
    }
    let by_tags = tag_search_filters(vec!["x".to_string()], None);
    assert!(by_tags.name_pattern.is_none() && by_tags.created_after.is_none());
    match search_plan(&by_tags).tags {
        Some(TagMatch::Any(v)) => assert_eq!(v, vec!["x"]),
        _ => panic!("expected any tag"),
    }
    let none = tag_search_filters(vec![], Some(true));
    assert!(search_plan(&none).tags.is_none());
}

#[test]
fn library_roots_have_no_parent_folder() {
    let roots = vec!["/lib/photos".to_string(), "/lib/docs/".to_string()];
    assert!(is_library_root("/lib/docs", &roots));
    assert!(is_library_root("/lib//photos/", &roots));
    assert!(!is_library_root("/lib/photos/2024", &roots));
    assert!(!is_library_root("/lib", &vec![]));
}
