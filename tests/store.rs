use komf::gc::GcVerdict;
use komf::records::{FileRecord, MetadataStore};

fn rec(hash: &str, expiry: i64) -> FileRecord {
    FileRecord { content_hash: hash.to_string(), expiry }
}

fn s(x: &str) -> String {
    x.to_string()
}

#[test]
fn put_get_delete() {
    let mut m = MetadataStore::new();
    assert_eq!(m.len(), 0);
    assert!(m.get(&s("a.txt")).is_none());
    m.put(s("a.txt"), rec("h1", 5));
    m.put(s("b.txt"), rec("h2", 6));
    assert_eq!(m.len(), 2);
    assert_eq!(m.get(&s("a.txt")).unwrap().content_hash, "h1");
    m.put(s("a.txt"), rec("h3", 7));
    assert_eq!(m.len(), 2);
    assert_eq!(m.get(&s("a.txt")).unwrap().expiry, 7);
    let gone = m.delete(&s("a.txt")).unwrap();
    assert_eq!(gone.content_hash, "h3");
    assert!(m.delete(&s("a.txt")).is_none());
    assert!(!m.contains(&s("a.txt")));
    assert!(m.contains(&s("b.txt")));
    m.put(s("c.txt"), rec("h4", 8));
    let mut ids = m.identifiers();
    ids.sort();
    assert_eq!(ids, vec![s("b.txt"), s("c.txt")]);
    assert!(MetadataStore::new().identifiers().is_empty());
}

#[test]
fn expired_record_and_blob_are_collected() {
    let mut m = MetadataStore::new();
    m.put(s("old.txt"), rec("h", 100));
    assert_eq!(m.collect(&s("old.txt"), 100), GcVerdict::Expired);
    assert!(m.get(&s("old.txt")).is_none());
    let mut m2 = MetadataStore::new();
    m2.put(s("old.txt"), rec("h", 100));
    let doomed = m2.sweep(&vec![s("old.txt")], 150);
    assert_eq!(doomed, vec![s("old.txt")]);
    assert!(!m2.contains(&s("old.txt")));
}

#[test]
fn orphan_blob_is_collected_and_records_untouched() {
    let mut m = MetadataStore::new();
    m.put(s("keep.txt"), rec("k", 500));
    m.put(s("unlisted.txt"), rec("u", 10));
    let doomed = m.sweep(&vec![s("orphan.txt"), s("keep.txt")], 200);
    assert_eq!(doomed, vec![s("orphan.txt")]);
    assert_eq!(m.len(), 2);
    assert_eq!(m.get(&s("keep.txt")).unwrap().content_hash, "k");
    assert_eq!(m.get(&s("unlisted.txt")).unwrap().expiry, 10);
    assert_eq!(m.collect(&s("orphan.txt"), 200), GcVerdict::Orphan);
}

#[test]
fn live_record_is_kept() {
    let mut m = MetadataStore::new();
    m.put(s("live.txt"), rec("l", 301));
    assert_eq!(m.collect(&s("live.txt"), 300), GcVerdict::Live);
    let doomed = m.sweep(&vec![s("live.txt")], 300);
    assert!(doomed.is_empty());
    assert_eq!(m.get(&s("live.txt")).unwrap().expiry, 301);
}

#[test]
fn mixed_sweep() {
    let mut m = MetadataStore::new();
    m.put(s("a"), rec("a", 10));
    m.put(s("b"), rec("b", 1000));
    m.put(s("c"), rec("c", 20));
    let doomed = m.sweep(&vec![s("a"), s("b"), s("c"), s("d")], 500);
    assert_eq!(doomed, vec![s("a"), s("c"), s("d")]);
    assert_eq!(m.len(), 1);
    assert!(m.contains(&s("b")));
    assert!(m.sweep(&Vec::new(), 500).is_empty());
}

#[test]
fn collect_at_extremes_of_time() {
    let mut m = MetadataStore::new();
    m.put(s("past"), rec("p", 0));
    m.put(s("future"), rec("f", i64::MAX));
    assert_eq!(m.collect(&s("past"), 1_700_000_000), GcVerdict::Expired);
    assert_eq!(m.collect(&s("future"), 1_700_000_000), GcVerdict::Live);
    assert_eq!(m.collect(&s("past"), 1_700_000_000), GcVerdict::Orphan);
    assert_eq!(m.collect(&s("future"), i64::MAX), GcVerdict::Expired);
    assert_eq!(m.len(), 0);
}
