use mcserver::cache::StatusCache;

#[test]
fn fresh_cache_reads_false_for_every_identity() {
    let cache = StatusCache::new();
    assert!(!cache.read("a"));
    assert!(!cache.read("b"));
    assert!(!cache.read(""));
}

#[test]
fn write_is_visible_to_later_reads() {
    let mut cache = StatusCache::new();
    cache.write("srv", true);
    assert!(cache.read("srv"));
}

#[test]
fn write_overwrites_earlier_record() {
    let mut cache = StatusCache::new();
    cache.write("srv", true);
    cache.write("srv", false);
    assert!(!cache.read("srv"));
    cache.write("srv", true);
    assert!(cache.read("srv"));
}

#[test]
fn records_are_kept_per_identity() {
    let mut cache = StatusCache::new();
    cache.write("one", true);
    cache.write("two", false);
    assert!(cache.read("one"));
    assert!(!cache.read("two"));
    assert!(!cache.read("three"));
}
