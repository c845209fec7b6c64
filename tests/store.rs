use s3_disk_cache::{boot_entries, CacheEntry, CacheStore, DiskFile};

fn entry(path: &str) -> CacheEntry {
    CacheEntry::new(path.to_string(), "image/png".to_string())
}

fn evicted_keys(v: &[(String, CacheEntry)]) -> Vec<String> {
    v.iter().map(|(k, _)| k.clone()).collect()
}

#[test]
fn new_store_is_empty() {
    let mut s = CacheStore::new(3);
    assert_eq!(s.len(), 0);
    assert_eq!(s.capacity(), 3);
    assert!(s.lookup("a").is_none());
    assert!(!s.contains("a"));
}

#[test]
fn insert_then_lookup_finds_entry() {
    let mut s = CacheStore::new(2);
    assert!(s.insert("k".to_string(), entry("/c/k")).is_empty());
    let e = s.lookup("k").unwrap();
    assert_eq!(e.path, "/c/k");
    assert_eq!(e.content_type, "image/png");
    assert!(s.contains("k"));
}

#[test]
fn store_never_exceeds_capacity() {
    let mut s = CacheStore::new(3);
    for i in 0..20 {
        s.insert(format!("k{}", i), entry(&format!("/c/k{}", i)));
        assert!(s.len() <= 3);
        if i % 3 == 0 {
            s.lookup("k0");
        }
    }
    assert_eq!(s.len(), 3);
}

#[test]
fn evicts_least_recently_used() {
    let mut s = CacheStore::new(2);
    s.insert("a".to_string(), entry("/c/a"));
    s.insert("b".to_string(), entry("/c/b"));
    assert!(s.lookup("a").is_some());
    let ev = s.insert("c".to_string(), entry("/c/c"));
    assert_eq!(evicted_keys(&ev), vec!["b".to_string()]);
    assert_eq!(ev[0].1.path, "/c/b");
    assert!(s.contains("a"));
    assert!(!s.contains("b"));
    assert!(s.contains("c"));
}

#[test]
fn contains_does_not_refresh_recency() {
    let mut s = CacheStore::new(2);
    s.insert("a".to_string(), entry("/c/a"));
    s.insert("b".to_string(), entry("/c/b"));
    assert!(s.contains("a"));
    let ev = s.insert("c".to_string(), entry("/c/c"));
    assert_eq!(evicted_keys(&ev), vec!["a".to_string()]);
}

#[test]
fn replacing_a_key_evicts_nothing() {
    let mut s = CacheStore::new(2);
    s.insert("a".to_string(), entry("/c/a"));
    s.insert("b".to_string(), entry("/c/b"));
    let ev = s.insert("a".to_string(), CacheEntry::new("/c/a2".to_string(), "video/mp4".to_string()));
    assert!(ev.is_empty());
    assert_eq!(s.len(), 2);
    let e = s.lookup("a").unwrap();
    assert_eq!(e.path, "/c/a2");
    assert_eq!(e.content_type, "video/mp4");
    // the replaced key became the most recent: b goes first
    let ev = s.insert("c".to_string(), entry("/c/c"));
    assert_eq!(evicted_keys(&ev), vec!["b".to_string()]);
}

#[test]
fn capacity_one_evicts_first_file() {
    let mut s = CacheStore::new(1);
    assert!(s.insert("k1".to_string(), entry("/c/k1")).is_empty());
    let ev = s.insert("k2".to_string(), entry("/c/k2"));
    assert_eq!(ev.len(), 1);
    assert_eq!(ev[0].0, "k1");
    assert_eq!(ev[0].1.path, "/c/k1");
    assert!(s.lookup("k1").is_none());
    assert_eq!(s.lookup("k2").unwrap().path, "/c/k2");
}

#[test]
fn rebuild_may_exceed_capacity_until_next_insert() {
    let mut s = CacheStore::new(2);
    s.insert("old".to_string(), entry("/c/old"));
    let entries = vec![
        ("x".to_string(), entry("/c/x")),
        ("y".to_string(), entry("/c/y")),
        ("z".to_string(), entry("/c/z")),
    ];
    s.rebuild_all(entries);
    assert_eq!(s.len(), 3);
    assert!(!s.contains("old"));
    // ties from the rebuild leave in the order they were loaded
    let ev = s.insert("n".to_string(), entry("/c/n"));
    assert_eq!(evicted_keys(&ev), vec!["x".to_string(), "y".to_string()]);
    assert_eq!(s.len(), 2);
    assert!(s.contains("z"));
    assert!(s.contains("n"));
}

#[test]
fn rebuild_keeps_last_entry_of_a_repeated_key() {
    let mut s = CacheStore::new(4);
    s.rebuild_all(vec![("a".to_string(), entry("/c/1")), ("a".to_string(), entry("/c/2"))]);
    assert_eq!(s.len(), 1);
    assert_eq!(s.lookup("a").unwrap().path, "/c/2");
}

#[test]
fn boot_rebuild_from_directory_listing() {
    let files = vec![
        DiskFile { name: "a_b".to_string(), head: vec![0xFF, 0xD8, 0xFF, 0xAA] },
        DiskFile { name: "c".to_string(), head: b"plain text".to_vec() },
    ];
    let mut s = CacheStore::new(10);
    s.rebuild_from_files("/cache", &files);
    let ab = s.lookup("a/b").unwrap();
    assert_eq!(ab.path, "/cache/a_b");
    assert_eq!(ab.content_type, "image/jpeg");
    let c = s.lookup("c").unwrap();
    assert_eq!(c.path, "/cache/c");
    assert_eq!(c.content_type, "application/octet-stream");
    assert!(s.lookup("missing").is_none());
}

#[test]
fn boot_entries_follow_listing_order() {
    let files = vec![
        DiskFile { name: "x_y_z".to_string(), head: vec![] },
        DiskFile { name: "w".to_string(), head: vec![] },
    ];
    let es = boot_entries("d/", &files);
    assert_eq!(es.len(), 2);
    assert_eq!(es[0].0, "x/y/z");
    assert_eq!(es[0].1.path, "d/x_y_z");
    assert_eq!(es[1].0, "w");
    assert_eq!(es[1].1.path, "d/w");
}

#[test]
fn empty_directory_gives_empty_store() {
    let mut s = CacheStore::new(2);
    s.insert("a".to_string(), entry("/c/a"));
    s.rebuild_from_files("/cache", &Vec::new());
    assert_eq!(s.len(), 0);
}
