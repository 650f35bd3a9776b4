use octabot::keyvalue::{
    cleanup_expired_entries, copy_bytes, expires_after, CacheEntry, Error, WasiKeyValueCtx,
    WasiKeyValueCtxBuilder, DEFAULT_TTL, SET_TTL,
};

fn key(text: &str) -> String {
    text.to_string()
}

fn entry(name: &str, value: &[u8], expires_at: u64) -> CacheEntry {
    CacheEntry { key: name.to_string(), value: value.to_vec(), expires_at }
}

#[test]
fn builder_defaults() {
    let builder = WasiKeyValueCtxBuilder::new();
    assert_eq!(builder.ttl, 86_400_000);
    assert_eq!(builder.ttl, DEFAULT_TTL);
    assert!(builder.in_memory_data.is_empty());
    let same = WasiKeyValueCtx::builder();
    assert_eq!(same, builder);
}

#[test]
fn builder_sets_ttl_and_data() {
    let data = vec![(key("a"), vec![1u8, 2])];
    let builder = WasiKeyValueCtxBuilder::new().ttl(5000).in_memory_data(data.clone());
    assert_eq!(builder.ttl, 5000);
    assert_eq!(builder.in_memory_data, data);
    let replaced = builder.in_memory_data(vec![(key("b"), vec![3u8])]).ttl(7);
    assert_eq!(replaced.in_memory_data, vec![(key("b"), vec![3u8])]);
    assert_eq!(replaced.ttl, 7);
}

#[test]
fn build_presets_entries_with_the_ttl() {
    let ctx = WasiKeyValueCtxBuilder::new()
        .in_memory_data(vec![(key("a"), vec![1u8]), (key("b"), vec![2u8])])
        .build(1000);
    assert_eq!(
        ctx.entries,
        vec![entry("a", &[1], 1000 + 86_400_000), entry("b", &[2], 1000 + 86_400_000)]
    );
}

#[test]
fn build_keeps_the_last_value_of_a_key() {
    let mut ctx = WasiKeyValueCtxBuilder::new()
        .ttl(10)
        .in_memory_data(vec![(key("a"), vec![1u8]), (key("b"), vec![2u8]), (key("a"), vec![3u8])])
        .build(0);
    assert_eq!(ctx.entries.len(), 2);
    assert_eq!(ctx.get(&key("a"), 5), Some(vec![3u8]));
    assert_eq!(ctx.get(&key("b"), 5), Some(vec![2u8]));
}

#[test]
fn preset_entries_expire_after_the_ttl() {
    let mut ctx = WasiKeyValueCtxBuilder::new()
        .ttl(10)
        .in_memory_data(vec![(key("a"), vec![1u8])])
        .build(100);
    assert_eq!(ctx.get(&key("a"), 109), Some(vec![1u8]));
    assert_eq!(ctx.get(&key("a"), 110), None);
    assert!(ctx.entries.is_empty());
}

#[test]
fn open_knows_the_empty_bucket_only() {
    let ctx = WasiKeyValueCtxBuilder::new().build(0);
    let bucket = match ctx.open(String::new()) {
        Ok(bucket) => bucket,
        Err(_) => panic!("the empty bucket exists"),
    };
    assert_eq!(bucket.identifier, "");
    assert_eq!(ctx.open(key("other")), Err(Error::NoSuchStore));
    assert_eq!(ctx.open(key(" ")), Err(Error::NoSuchStore));
}

#[test]
fn set_then_get() {
    let mut ctx = WasiKeyValueCtxBuilder::new().build(0);
    assert_eq!(ctx.get(&key("a"), 0), None);
    ctx.set(key("a"), vec![1, 2, 3], 50);
    assert_eq!(ctx.entries, vec![entry("a", &[1, 2, 3], 50 + 3_600_000)]);
    assert_eq!(ctx.get(&key("a"), 60), Some(vec![1, 2, 3]));
    assert_eq!(ctx.get(&key("A"), 60), None);
}

#[test]
fn set_replaces_the_value_and_renews_the_time() {
    let mut ctx = WasiKeyValueCtxBuilder::new().build(0);
    ctx.set(key("a"), vec![1], 0);
    ctx.set(key("b"), vec![2], 0);
    ctx.set(key("a"), vec![9], 1000);
    assert_eq!(
        ctx.entries,
        vec![entry("a", &[9], 1000 + SET_TTL), entry("b", &[2], SET_TTL)]
    );
}

#[test]
fn set_entries_expire_after_an_hour() {
    let mut ctx = WasiKeyValueCtxBuilder::new().build(0);
    ctx.set(key("a"), vec![1], 100);
    assert!(ctx.has_key(&key("a"), 100 + 3_599_999));
    assert!(!ctx.has_key(&key("a"), 100 + 3_600_000));
    assert_eq!(ctx.get(&key("a"), 100), None);
}

#[test]
fn every_operation_sweeps_first() {
    let mut ctx = WasiKeyValueCtx {
        entries: vec![entry("old", &[1], 10), entry("new", &[2], 100), entry("older", &[3], 5)],
    };
    ctx.set(key("x"), vec![4], 50);
    assert_eq!(ctx.entries, vec![entry("new", &[2], 100), entry("x", &[4], 50 + SET_TTL)]);
    ctx.delete(&key("missing"), 100);
    assert_eq!(ctx.entries, vec![entry("x", &[4], 50 + SET_TTL)]);
}

#[test]
fn delete_drops_the_key() {
    let mut ctx = WasiKeyValueCtxBuilder::new().build(0);
    ctx.set(key("a"), vec![1], 0);
    ctx.set(key("b"), vec![2], 0);
    ctx.set(key("c"), vec![3], 0);
    ctx.delete(&key("b"), 1);
    assert!(!ctx.has_key(&key("b"), 1));
    assert!(ctx.has_key(&key("a"), 1));
    assert!(ctx.has_key(&key("c"), 1));
    ctx.delete(&key("b"), 1);
    assert_eq!(ctx.entries.len(), 2);
}

#[test]
fn list_keys_from_the_cursor() {
    let mut ctx = WasiKeyValueCtxBuilder::new().build(0);
    ctx.set(key("a"), vec![1], 0);
    ctx.set(key("b"), vec![2], 0);
    ctx.set(key("c"), vec![3], 0);
    let all = ctx.list_keys(None, 1);
    assert_eq!(all.keys, vec![key("a"), key("b"), key("c")]);
    assert_eq!(all.cursor, None);
    assert_eq!(ctx.list_keys(Some(0), 1).keys, vec![key("a"), key("b"), key("c")]);
    assert_eq!(ctx.list_keys(Some(1), 1).keys, vec![key("b"), key("c")]);
    assert_eq!(ctx.list_keys(Some(3), 1).keys, Vec::<String>::new());
    assert_eq!(ctx.list_keys(Some(4), 1).keys, Vec::<String>::new());
    assert_eq!(ctx.list_keys(Some(u64::MAX), 1).cursor, None);
    assert_eq!(ctx.list_keys(None, SET_TTL).keys, Vec::<String>::new());
}

#[test]
fn cleanup_keeps_the_living_in_their_order() {
    let mut data = vec![
        entry("a", &[1], 10),
        entry("b", &[2], 11),
        entry("c", &[3], 9),
        entry("d", &[4], 12),
    ];
    cleanup_expired_entries(&mut data, 10);
    assert_eq!(data, vec![entry("b", &[2], 11), entry("d", &[4], 12)]);
    cleanup_expired_entries(&mut data, 10);
    assert_eq!(data.len(), 2);
    cleanup_expired_entries(&mut data, u64::MAX);
    assert!(data.is_empty());
}

#[test]
fn expiry_is_held_to_the_range() {
    assert_eq!(expires_after(5, 7), 12);
    assert_eq!(expires_after(u64::MAX - 1, 1), u64::MAX);
    assert_eq!(expires_after(u64::MAX - 1, 2), u64::MAX);
    assert_eq!(expires_after(u64::MAX, u64::MAX), u64::MAX);
    assert_eq!(copy_bytes(&vec![1, 2, 3]), vec![1, 2, 3]);
}

#[test]
fn cache_behaves_like_a_map_with_expiry() {
    let mut ctx = WasiKeyValueCtxBuilder::new().build(0);
    ctx.set(key("a"), vec![1], 0);
    ctx.set(key("b"), vec![2], 10);
    ctx.set(key("a"), vec![3], 20);
    assert_eq!(ctx.get(&key("b"), 3_600_009), Some(vec![2]));
    assert_eq!(ctx.get(&key("b"), 3_600_010), None);
    assert_eq!(ctx.entries.len(), 1);
    assert_eq!(ctx.get(&key("a"), 3_600_019), Some(vec![3]));
    assert_eq!(ctx.get(&key("a"), 3_600_020), None);
    assert!(ctx.entries.is_empty());
}

#[test]
fn well_formed_caches_are_told_from_broken_ones() {
    let mut ctx = WasiKeyValueCtxBuilder::new().build(0);
    assert!(ctx.is_well_formed());
    ctx.set(key("a"), vec![1], 0);
    ctx.set(key("b"), vec![2], 0);
    assert!(ctx.is_well_formed());
    let broken = WasiKeyValueCtx { entries: vec![entry("a", &[1], 5), entry("a", &[2], 6)] };
    assert!(!broken.is_well_formed());
}
