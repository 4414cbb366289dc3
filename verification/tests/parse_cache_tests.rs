use foch_language::parse_cache::{
    cache_cap_from_setting, cache_shard_path, cache_entry_is_fresh, gc_stats, goes_before, plan_gc,
    summarize_cache_files, total_size, CacheFileInfo, CACHE_VERSION_DIR,
    DEFAULT_CACHE_CAP_BYTES, PARSE_CACHE_VERSION,
};

const SECOND: i128 = 1_000_000_000;

fn cache_file(components: &[&str], size: u64, mtime_nanos: i128, current: bool) -> CacheFileInfo {
    CacheFileInfo {
        path: format!("/cache/{}", components.join("/")),
        components: components.iter().map(|c| c.to_string()).collect(),
        size,
        mtime_nanos,
        is_current_version: current,
    }
}

/// Runs the plan and gives the statistics that the collection reports,
/// every planned removal succeeding.
fn collect(files: &Vec<CacheFileInfo>, cap: u64) -> (Vec<bool>, foch_language::parse_cache::GcStats) {
    let plan = plan_gc(files, cap);
    let remaining: Vec<CacheFileInfo> = files
        .iter()
        .zip(plan.evict.iter())
        .filter(|(_, evict)| !**evict)
        .map(|(f, _)| f.clone())
        .collect();
    let evicted = plan.evict.iter().filter(|e| **e).count() as u64;
    let stats = gc_stats(files.len() as u64, total_size(files), evicted, &remaining);
    (plan.evict, stats)
}

#[test]
fn lru_eviction_under_cap() {
    let mut files = Vec::new();
    for index in 0..5_u64 {
        let dir = format!("{index:02}");
        let name = format!("cache-{index}.json");
        files.push(cache_file(
            &[CACHE_VERSION_DIR, &dir, "aa", &name],
            10,
            (index as i128 + 1) * SECOND,
            true,
        ));
    }

    let (evict, stats) = collect(&files, 20);

    assert_eq!(stats.scanned, 5);
    assert_eq!(stats.evicted, 3);
    assert_eq!(stats.kept, 2);
    assert_eq!(stats.bytes_before, 50);
    assert_eq!(stats.bytes_after, 20);
    assert!(evict[0]);
    assert!(evict[1]);
    assert!(evict[2]);
    assert!(!evict[3]);
    assert!(!evict[4]);
}

#[test]
fn gc_empty_dir_no_panic() {
    let files: Vec<CacheFileInfo> = Vec::new();

    let (_, stats) = collect(&files, 1024);

    assert_eq!(stats.scanned, 0);
    assert_eq!(stats.kept, 0);
    assert_eq!(stats.evicted, 0);
    assert_eq!(stats.bytes_before, 0);
    assert_eq!(stats.bytes_after, 0);
}

#[test]
fn cap_zero_evicts_all() {
    let mut files = Vec::new();
    for index in 0..3_u64 {
        let name = format!("entry-{index}.json");
        files.push(cache_file(&[CACHE_VERSION_DIR, "aa", "bb", &name], 10, 7 * SECOND, true));
    }

    let (_, stats) = collect(&files, 0);

    assert_eq!(stats.scanned, 3);
    assert_eq!(stats.evicted, 3);
    assert_eq!(stats.kept, 0);
    assert_eq!(stats.bytes_after, 0);
}

#[test]
fn old_versions_are_always_evicted_and_ties_go_by_path() {
    let files = vec![
        cache_file(&["v5", "aa", "old.json"], 1, 9 * SECOND, false),
        cache_file(&["v6", "ab", "x.json"], 6, 5 * SECOND, true),
        cache_file(&["v6", "aa", "y.json"], 6, 5 * SECOND, true),
        cache_file(&["v6", "aa", "big.json"], 100, 8 * SECOND, true),
    ];
    let plan = plan_gc(&files, 10);
    assert_eq!(plan.order, vec![3, 2, 1]);
    assert_eq!(plan.evict, vec![true, true, false, true]);
    assert!(goes_before(&files[2], &files[1]));
    assert!(!goes_before(&files[1], &files[2]));

    let unlimited = plan_gc(&files, u64::MAX);
    assert_eq!(unlimited.evict, vec![true, false, false, false]);
}

#[test]
fn shorter_paths_come_first_on_equal_times() {
    let a = cache_file(&["v6", "aa"], 1, 0, true);
    let b = cache_file(&["v6", "aa", "b.json"], 1, 0, true);
    let c = cache_file(&["v6", "aa-b"], 1, 0, true);
    assert!(goes_before(&a, &b));
    assert!(goes_before(&b, &c));
    assert!(!goes_before(&a, &a));
}

#[test]
fn cache_statistics() {
    let files = vec![
        cache_file(&["v6", "a.json"], 3, 5 * SECOND, true),
        cache_file(&["v6", "b.json"], 4, -2 * SECOND, true),
        cache_file(&["v5", "c.json"], 5, 9 * SECOND, false),
    ];
    let stats = summarize_cache_files("/cache".to_string(), &files);
    assert_eq!(stats.root, "/cache");
    assert_eq!(stats.file_count, 3);
    assert_eq!(stats.total_bytes, 12);
    assert_eq!(stats.oldest_mtime, Some(-2 * SECOND));
    assert_eq!(stats.newest_mtime, Some(9 * SECOND));

    let empty = summarize_cache_files("/cache".to_string(), &Vec::new());
    assert_eq!(empty.file_count, 0);
    assert_eq!(empty.oldest_mtime, None);
    assert_eq!(empty.newest_mtime, None);
}

#[test]
fn entries_are_fresh_only_for_the_same_file_state() {
    assert!(cache_entry_is_fresh(PARSE_CACHE_VERSION, 10, 99, 10, 99));
    assert!(!cache_entry_is_fresh(PARSE_CACHE_VERSION - 1, 10, 99, 10, 99));
    assert!(!cache_entry_is_fresh(PARSE_CACHE_VERSION, 11, 99, 10, 99));
    assert!(!cache_entry_is_fresh(PARSE_CACHE_VERSION, 10, 98, 10, 99));
}

#[test]
fn cap_setting_parses_a_number_or_falls_back() {
    assert_eq!(cache_cap_from_setting(None), DEFAULT_CACHE_CAP_BYTES);
    assert_eq!(DEFAULT_CACHE_CAP_BYTES, 1 << 30);
    assert_eq!(cache_cap_from_setting(Some(" 2048 ")), 2048);
    assert_eq!(cache_cap_from_setting(Some("+7")), 7);
    assert_eq!(cache_cap_from_setting(Some("-7")), DEFAULT_CACHE_CAP_BYTES);
    assert_eq!(cache_cap_from_setting(Some("lots")), DEFAULT_CACHE_CAP_BYTES);
    assert_eq!(cache_cap_from_setting(Some("18446744073709551615")), u64::MAX);
    assert_eq!(cache_cap_from_setting(Some("18446744073709551616")), DEFAULT_CACHE_CAP_BYTES);
}

#[test]
fn cache_entries_are_sharded_by_the_leading_hex_digits() {
    assert_eq!(cache_shard_path(0x0123_4567_89ab_cdef), "01/23/0123456789abcdef.json");
    assert_eq!(cache_shard_path(0), "00/00/0000000000000000.json");
    assert_eq!(cache_shard_path(u64::MAX), "ff/ff/ffffffffffffffff.json");
    let h: u64 = 0xfeed_0000_0000_0042;
    assert_eq!(cache_shard_path(h), format!("{:016x}", h)[0..2].to_string() + "/" + &format!("{:016x}", h)[2..4] + "/" + &format!("{:016x}.json", h));
}
