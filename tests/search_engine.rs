use file_search::cache::{find_in_cache, update_cache, CacheEntry, CACHE_SIZE_LIMIT};
use file_search::filter::{day_of_secs, parse_bound_day, should_filter_file_by_metadata, EntryMeta};
use file_search::matching::{is_text_file, match_entry, needs_content, FileItem};
use file_search::options::{MatchConfig, SearchOptions, Threshold};
use file_search::process::{cancel_search, AppState, SearchProcess, SearchProcessInfo};
use file_search::session::{is_path_in_directory, thread_pool_size, Delivery, SearchSession};
use file_search::similarity::{edit_distance, is_similar_enough, jaccard_similarity};
use file_search::text::{contains_str, trim_leading_dots};
use file_search::walker::{listing_failure, metadata_failure, subtree_failure, visit_entry, Visit};

fn options(scope: &str, method: &str) -> SearchOptions {
    SearchOptions {
        custom_thread_pool_use: false,
        thread_pool_num: "0".to_string(),
        search_scope: scope.to_string(),
        custom_file_cont_use: false,
        custom_property_use: false,
        custom_file_size_use: false,
        size_max: 0,
        size_min: 0,
        custom_file_crt_date_use: false,
        crt_start: String::new(),
        crt_end: String::new(),
        custom_file_modi_date_use: false,
        modi_start: String::new(),
        modi_end: String::new(),
        custom_file_owner_use: false,
        owner_name: String::new(),
        custom_file_type_use: false,
        file_type_list: String::new(),
        custom_symbolic_chk: false,
        custom_sch_method: method.to_string(),
        custom_log_use: false,
    }
}

fn file(size: u64) -> EntryMeta {
    EntryMeta {
        is_file: true,
        is_dir: false,
        is_symlink: false,
        size,
        created: Some(1_700_000_000),
        modified: Some(1_700_000_000),
        owner_uid: Some(1000),
    }
}

fn dir() -> EntryMeta {
    EntryMeta { is_file: false, is_dir: true, is_symlink: false, size: 4096, ..file(0) }
}

/// The sample tree: `/root/a.txt` (10 bytes), `/root/b.txt` (1000 bytes),
/// `/root/sub/c.txt` (10 bytes).
fn tree(dir_path: &str) -> Vec<(String, EntryMeta)> {
    match dir_path {
        "/root" => vec![
            ("/root/a.txt".to_string(), file(10)),
            ("/root/b.txt".to_string(), file(1000)),
            ("/root/sub".to_string(), dir()),
        ],
        "/root/sub" => vec![("/root/sub/c.txt".to_string(), file(10))],
        _ => vec![],
    }
}

/// Walks the sample tree sequentially with the library's per-entry decisions and
/// drains the results through a session.
fn walk(keyword: &str, o: &SearchOptions) -> Vec<String> {
    let cfg = MatchConfig::fallback();
    let mut session = SearchSession::new(None);
    let mut pending = vec!["/root".to_string()];
    while let Some(d) = pending.pop() {
        for (path, meta) in tree(&d) {
            match visit_entry(false, &path, &meta, keyword, o, "", &cfg, true).unwrap() {
                Visit::Stop => break,
                Visit::Skip => {}
                Visit::Proceed { item, descend } => {
                    if let Some(item) = item {
                        session.receive(item);
                    }
                    if descend {
                        pending.push(path.clone());
                    }
                }
            }
        }
    }
    let mut r = session.final_paths();
    r.sort();
    r
}

#[test]
fn sample_tree_size_filter_and_name() {
    let mut o = options("0", "0");
    o.custom_property_use = true;
    o.custom_file_size_use = true;
    o.size_min = 0;
    o.size_max = 100;
    assert_eq!(walk("a", &o), vec!["/root/a.txt".to_string()]);
}

#[test]
fn sample_tree_files_only() {
    let o = options("1", "0");
    assert_eq!(walk("c", &o), vec!["/root/sub/c.txt".to_string()]);
}

#[test]
fn sample_tree_dirs_only() {
    let o = options("2", "0");
    assert_eq!(walk("u", &o), vec!["/root/sub".to_string()]);
}

#[test]
fn fuzzy_edit_distance_matches_within_threshold() {
    assert_eq!(edit_distance("a.tx", "a.txt"), 1);
    let o = options("0", "2");
    let cfg = MatchConfig::fallback();
    let r = match_entry("/root/a.txt.bak", &file(3), "a.tx", &o, "", &cfg).unwrap();
    let item = r.unwrap();
    assert_eq!(item.file_name, "a.txt");
    assert_eq!(item.file_path, "/root/a.txt.bak");
    let far = match_entry("/root/zzzzzz.txt", &file(3), "a.tx", &o, "", &cfg).unwrap();
    assert!(far.is_none());
}

#[test]
fn edit_distance_threshold_is_a_ratio() {
    let o = options("0", "2");
    let cfg = MatchConfig {
        edit_threshold: Threshold { num: 1, den: 2 },
        jaccard_threshold: Threshold { num: 1, den: 2 },
    };
    // distance 1 > 0.5
    assert!(match_entry("/x/a.txt.bak", &file(1), "a.tx", &o, "", &cfg).unwrap().is_none());
    // distance 0 <= 0.5
    assert!(match_entry("/x/a.tx.bak", &file(1), "a.tx", &o, "", &cfg).unwrap().is_some());
}

#[test]
fn jaccard_over_character_sets() {
    let s = jaccard_similarity("abc", "bcd");
    assert_eq!((s.shared, s.combined), (2, 4));
    let s = jaccard_similarity("aaa", "a");
    assert_eq!((s.shared, s.combined), (1, 1));
    let s = jaccard_similarity("", "");
    assert_eq!((s.shared, s.combined), (0, 0));
    assert!(is_similar_enough("abc", "bcd", &Threshold { num: 1, den: 2 }));
    assert!(!is_similar_enough("abc", "bcd", &Threshold { num: 3, den: 5 }));
    assert!(!is_similar_enough("", "", &Threshold { num: 1, den: 2 }));
    assert!(is_similar_enough("", "", &Threshold { num: 0, den: 1 }));
}

#[test]
fn jaccard_strategy_on_stem() {
    let o = options("0", "3");
    let cfg = MatchConfig::fallback();
    assert!(match_entry("/d/cab.rs", &file(1), "abc", &o, "", &cfg).unwrap().is_some());
    assert!(match_entry("/d/xyz.rs", &file(1), "abc", &o, "", &cfg).unwrap().is_none());
}

#[test]
fn regex_strategy_and_invalid_pattern() {
    let o = options("0", "1");
    let cfg = MatchConfig::fallback();
    assert!(match_entry("/d/report2024.txt", &file(1), "^rep.*[0-9]+$", &o, "", &cfg)
        .unwrap()
        .is_some());
    assert!(match_entry("/d/notes.txt", &file(1), "^rep", &o, "", &cfg).unwrap().is_none());
    let e = match_entry("/d/notes.txt", &file(1), "(", &o, "", &cfg).unwrap_err();
    assert!(e.starts_with("Invalid regex pattern: "));
}

#[test]
fn content_search_reads_text_files_only() {
    let mut o = options("0", "0");
    o.custom_file_cont_use = true;
    let cfg = MatchConfig::fallback();
    assert!(is_text_file("/d/notes.txt"));
    assert!(!is_text_file("/d/picture.png"));
    assert!(needs_content("/d/notes.txt", &file(5), &o));
    assert!(!needs_content("/d/picture.png", &file(5), &o));
    assert!(!needs_content("/d/folder", &dir(), &o));
    let hit = match_entry("/d/notes.txt", &file(5), "needle", &o, "hay needle hay", &cfg).unwrap();
    assert_eq!(hit.unwrap().file_name, "notes");
    // contents of a non-text file are never consulted
    let miss = match_entry("/d/picture.png", &file(5), "needle", &o, "needle", &cfg).unwrap();
    assert!(miss.is_none());
}

#[test]
fn scope_files_only_never_reports_directories() {
    let o = options("1", "0");
    let cfg = MatchConfig::fallback();
    assert!(match_entry("/d/abc", &dir(), "abc", &o, "", &cfg).unwrap().is_none());
    assert!(match_entry("/d/abc.txt", &file(1), "abc", &o, "", &cfg).unwrap().is_some());
    let o = options("2", "0");
    assert!(match_entry("/d/abc.txt", &file(1), "abc", &o, "", &cfg).unwrap().is_none());
    assert!(match_entry("/d/abc", &dir(), "abc", &o, "", &cfg).unwrap().is_some());
}

#[test]
fn size_filter_bounds_are_inclusive() {
    let mut o = options("0", "0");
    o.custom_file_size_use = true;
    o.size_min = 10;
    o.size_max = 100;
    assert!(!should_filter_file_by_metadata("/d/f", &file(10), &o, true));
    assert!(!should_filter_file_by_metadata("/d/f", &file(100), &o, true));
    assert!(should_filter_file_by_metadata("/d/f", &file(9), &o, true));
    assert!(should_filter_file_by_metadata("/d/f", &file(101), &o, true));
    // directories are not size-filtered
    assert!(!should_filter_file_by_metadata("/d/f", &dir(), &o, true));
}

#[test]
fn date_filter_by_whole_days() {
    assert_eq!(day_of_secs(0), 0);
    assert_eq!(day_of_secs(86399), 0);
    assert_eq!(day_of_secs(86400), 1);
    assert_eq!(day_of_secs(-1), -1);
    assert_eq!(day_of_secs(-86400), -1);
    assert_eq!(day_of_secs(-86401), -2);
    assert_eq!(parse_bound_day("1970-01-02"), Some(1));
    assert_eq!(parse_bound_day("2024-01-01"), Some(19723));
    assert_eq!(parse_bound_day("not a date"), None);
    assert_eq!(parse_bound_day(""), None);

    let mut o = options("0", "0");
    o.custom_file_modi_date_use = true;
    o.modi_start = "2023-11-14".to_string();
    o.modi_end = "2023-11-14".to_string();
    // 1_700_000_000 is 2023-11-14T22:13:20Z
    assert!(!should_filter_file_by_metadata("/d/f", &file(1), &o, true));
    o.modi_start = "2023-11-15".to_string();
    assert!(should_filter_file_by_metadata("/d/f", &file(1), &o, true));
    o.modi_start = "garbage".to_string();
    o.modi_end = "2023-11-13".to_string();
    assert!(should_filter_file_by_metadata("/d/f", &file(1), &o, true));
    o.modi_end = "garbage".to_string();
    assert!(!should_filter_file_by_metadata("/d/f", &file(1), &o, true));
}

#[test]
fn owner_and_extension_filters() {
    let mut o = options("0", "0");
    o.custom_file_owner_use = true;
    o.owner_name = "100".to_string();
    assert!(!should_filter_file_by_metadata("/d/f", &file(1), &o, true));
    assert!(should_filter_file_by_metadata("/d/f", &file(1), &o, false));
    o.owner_name = "7".to_string();
    assert!(should_filter_file_by_metadata("/d/f", &file(1), &o, true));
    let unknown = EntryMeta { owner_uid: None, ..file(1) };
    o.owner_name = String::new();
    assert!(should_filter_file_by_metadata("/d/f", &unknown, &o, true));

    let mut o = options("0", "0");
    o.custom_file_type_use = true;
    o.file_type_list = ".rs  txt".to_string();
    assert!(!should_filter_file_by_metadata("/d/a.rs", &file(1), &o, true));
    assert!(!should_filter_file_by_metadata("/d/a.txt", &file(1), &o, true));
    assert!(should_filter_file_by_metadata("/d/a.TXT", &file(1), &o, true));
    assert!(should_filter_file_by_metadata("/d/a.md", &file(1), &o, true));
    assert!(!should_filter_file_by_metadata("/d/Makefile", &file(1), &o, true));
}

#[test]
fn symlinks_skipped_unless_allowed() {
    let o = options("0", "0");
    let cfg = MatchConfig::fallback();
    let link = EntryMeta { is_symlink: true, ..file(1) };
    assert!(matches!(visit_entry(false, "/d/abc", &link, "abc", &o, "", &cfg, true), Ok(Visit::Skip)));
    let mut o2 = options("0", "0");
    o2.custom_symbolic_chk = true;
    assert!(matches!(
        visit_entry(false, "/d/abc", &link, "abc", &o2, "", &cfg, true),
        Ok(Visit::Proceed { item: Some(_), descend: false })
    ));
}

#[test]
fn cancelled_walk_stops_without_emitting() {
    let o = options("0", "0");
    let cfg = MatchConfig::fallback();
    assert!(matches!(visit_entry(true, "/d/abc", &file(1), "abc", &o, "", &cfg, true), Ok(Visit::Stop)));
}

#[test]
fn walker_failures() {
    assert_eq!(listing_failure(true, "denied"), Ok(()));
    assert_eq!(listing_failure(false, "gone"), Err("Failed to read directory: gone".to_string()));
    assert_eq!(metadata_failure(true, "denied"), Ok(()));
    assert_eq!(metadata_failure(false, "gone"), Err("Error reading metadata: gone".to_string()));
    assert_eq!(subtree_failure("Permission denied (os error 13)".to_string()), Ok(()));
    assert_eq!(subtree_failure("x: Access is denied.".to_string()), Ok(()));
    assert_eq!(subtree_failure("Failed to read directory: gone".to_string()),
        Err("Failed to read directory: gone".to_string()));
}

#[test]
fn cache_repeat_search_counts_hits() {
    let mut cache: Vec<CacheEntry> = Vec::new();
    let o = options("0", "0");
    assert!(find_in_cache(&cache, "k", &o).is_none());
    update_cache(&mut cache, "k", vec!["/a".to_string()], &o);
    assert_eq!(cache.len(), 1);
    assert_eq!(cache[0].hit, 1);
    let o2 = options("0", "0");
    update_cache(&mut cache, "k", vec!["/b".to_string()], &o2);
    assert_eq!(cache.len(), 1);
    assert_eq!(cache[0].hit, 2);
    assert_eq!(find_in_cache(&cache, "k", &o), Some(vec!["/b".to_string()]));
    // other options or another keyword: a miss
    assert!(find_in_cache(&cache, "k", &options("1", "0")).is_none());
    assert!(find_in_cache(&cache, "K", &o).is_none());
    update_cache(&mut cache, "k", vec![], &options("1", "0"));
    assert_eq!(cache.len(), 2);
}

#[test]
fn cache_evicts_least_hit_entry() {
    let mut cache: Vec<CacheEntry> = Vec::new();
    let o = options("0", "0");
    for i in 0..CACHE_SIZE_LIMIT {
        let kw = format!("k{}", i);
        update_cache(&mut cache, &kw, vec![], &o);
        update_cache(&mut cache, &kw, vec![], &o);
        if i != 7 {
            update_cache(&mut cache, &kw, vec![], &o);
        }
    }
    assert_eq!(cache.len(), CACHE_SIZE_LIMIT);
    update_cache(&mut cache, "new", vec!["/n".to_string()], &o);
    assert_eq!(cache.len(), CACHE_SIZE_LIMIT);
    // the fresh entry has one hit, the least of all: it is the one that leaves
    assert!(find_in_cache(&cache, "new", &o).is_none());
    assert!(find_in_cache(&cache, "k7", &o).is_some());

    let mut cache: Vec<CacheEntry> = Vec::new();
    for i in 0..CACHE_SIZE_LIMIT {
        let kw = format!("k{}", i);
        update_cache(&mut cache, &kw, vec![], &o);
        if i != 7 {
            update_cache(&mut cache, &kw, vec![], &o);
        }
    }
    update_cache(&mut cache, "new", vec![], &o);
    assert_eq!(cache.len(), CACHE_SIZE_LIMIT);
    // k7 and the fresh entry tie at one hit: the first of them leaves
    assert!(find_in_cache(&cache, "k7", &o).is_none());
    assert!(find_in_cache(&cache, "new", &o).is_some());
}

#[test]
fn process_cancel_and_complete() {
    let mut p = SearchProcess::new();
    assert_eq!(p.get_info().id.len(), 36);
    assert!(!p.is_cancelled());
    p.cancel();
    assert!(p.is_cancelled());
    p.mark_as_completed();
    assert!(p.is_completed());
    assert!(p.is_cancelled());

    let mut q = SearchProcess::with_id("t".to_string());
    q.mark_as_completed();
    q.cancel();
    assert!(!q.is_cancelled());
    assert!(q.is_completed());
    let info = SearchProcessInfo::new("t".to_string());
    assert_eq!(info.id, "t");
    assert!(!info.is_cancelled);
}

#[test]
fn registry_cancel_by_token() {
    let mut state = AppState::new();
    state.add_process("a".to_string(), SearchProcess::with_id("a".to_string()));
    state.add_process("b".to_string(), SearchProcess::with_id("b".to_string()));
    assert_eq!(cancel_search("a".to_string(), &mut state), Ok(()));
    assert!(state.is_cancelled("a"));
    assert!(!state.is_cancelled("b"));
    assert_eq!(cancel_search("zz".to_string(), &mut state), Err("Process not found".to_string()));
    let info = state.complete_process("b").unwrap();
    assert!(!info.is_cancelled);
    assert!(state.get_process("b").unwrap().is_completed());
    // cancelling a completed search has no effect
    assert_eq!(cancel_search("b".to_string(), &mut state), Ok(()));
    assert!(!state.is_cancelled("b"));
    state.remove_process("a");
    assert!(state.get_process("a").is_none());
    assert_eq!(cancel_search("a".to_string(), &mut state), Err("Process not found".to_string()));
}

#[test]
fn session_forwards_each_path_once() {
    let o = options("0", "0");
    let mut s = SearchSession::new(Some(vec!["/r/x".to_string(), "/r/gone".to_string()]));
    let served = s.serve_cached(0, true, true, true, false, &o).unwrap();
    assert_eq!(served.file_name, "x");
    assert!(s.serve_cached(0, true, true, true, false, &o).is_none());
    assert!(s.serve_cached(1, false, true, true, false, &o).is_none());
    let item = |p: &str| FileItem { file_name: String::new(), file_path: p.to_string() };
    assert!(matches!(s.receive(item("/r/x")), Delivery::Recorded));
    assert!(matches!(s.receive(item("/r/y")), Delivery::Emit));
    assert!(matches!(s.receive(item("/r/y")), Delivery::Duplicate));
    assert!(matches!(s.receive(item("/r/x")), Delivery::Duplicate));
    assert_eq!(s.final_paths(), vec!["/r/x".to_string(), "/r/y".to_string()]);
    assert_eq!(s.kept_len(), 2);
}

#[test]
fn cached_paths_respect_scope() {
    let o = options("2", "0");
    let mut s = SearchSession::new(Some(vec!["/r/f.txt".to_string()]));
    assert!(s.serve_cached(0, true, true, true, false, &o).is_none());
    let o = options("1", "0");
    assert!(s.serve_cached(0, true, false, true, false, &o).is_none());
    assert!(s.serve_cached(0, true, true, true, false, &o).is_some());
}

#[test]
fn helpers() {
    assert!(is_path_in_directory("/a/b/c", "/a/b"));
    assert!(!is_path_in_directory("/a/bc", "/a/b"));
    assert!(contains_str("hello", "ell"));
    assert!(!contains_str("hello", "lol"));
    assert!(contains_str("x", ""));
    assert_eq!(trim_leading_dots("..rs"), "rs");
    let mut o = options("0", "0");
    assert_eq!(thread_pool_size(&o, 8), None);
    o.custom_thread_pool_use = true;
    o.thread_pool_num = "3".to_string();
    assert_eq!(thread_pool_size(&o, 8), Some(3));
    o.thread_pool_num = "many".to_string();
    assert_eq!(thread_pool_size(&o, 8), Some(8));
    o.thread_pool_num = "+4".to_string();
    assert_eq!(thread_pool_size(&o, 8), Some(4));
    o.thread_pool_num = "+".to_string();
    assert_eq!(thread_pool_size(&o, 8), Some(8));
    o.thread_pool_num = String::new();
    assert_eq!(thread_pool_size(&o, 8), Some(8));
    o.thread_pool_num = "99999999999999999999999".to_string();
    assert_eq!(thread_pool_size(&o, 8), Some(8));
}
