use femtofont::cache::GlyphCache;

#[test]
fn new_cache_is_empty() {
    let cache: GlyphCache<u32> = GlyphCache::new(3);
    assert_eq!(cache.len(), 0);
    assert_eq!(cache.try_no_mut(7), None);
}

#[test]
fn insert_then_lookup_finds_glyph() {
    let mut cache: GlyphCache<u32> = GlyphCache::new(3);
    cache.insert(7, 70);
    assert_eq!(cache.try_no_mut(7), Some(70));
    assert_eq!(cache.try_mut(7), Some(70));
    assert_eq!(cache.try_no_mut(8), None);
    assert_eq!(cache.try_mut(8), None);
    assert_eq!(cache.len(), 1);
}

#[test]
fn first_entry_of_a_key_wins() {
    let mut cache: GlyphCache<u32> = GlyphCache::new(3);
    cache.insert(1, 10);
    cache.insert(1, 11);
    assert_eq!(cache.len(), 2);
    assert_eq!(cache.try_no_mut(1), Some(10));
}

#[test]
fn full_cache_evicts_the_least_recently_used() {
    let mut cache: GlyphCache<u32> = GlyphCache::new(3);
    cache.insert(1, 10);
    cache.insert(2, 20);
    cache.insert(3, 30);
    // Use 1 and 3; 2 keeps the oldest stamp.
    assert_eq!(cache.try_mut(1), Some(10));
    assert_eq!(cache.try_mut(3), Some(30));
    cache.insert(4, 40);
    assert_eq!(cache.len(), 3);
    assert_eq!(cache.try_no_mut(2), None);
    assert_eq!(cache.try_no_mut(1), Some(10));
    assert_eq!(cache.try_no_mut(3), Some(30));
    assert_eq!(cache.try_no_mut(4), Some(40));
}

#[test]
fn tie_evicts_the_first_slot() {
    let mut cache: GlyphCache<u32> = GlyphCache::new(2);
    cache.insert(1, 10);
    cache.insert(2, 20);
    // Both entries carry stamp 0: the first is replaced.
    cache.insert(3, 30);
    assert_eq!(cache.try_no_mut(1), None);
    assert_eq!(cache.try_no_mut(2), Some(20));
    assert_eq!(cache.try_no_mut(3), Some(30));
}

#[test]
fn recent_glyph_survives_eviction() {
    let mut cache: GlyphCache<u32> = GlyphCache::new(2);
    cache.insert(1, 10);
    cache.insert(2, 20);
    assert_eq!(cache.try_mut(1), Some(10));
    cache.insert(3, 30);
    assert_eq!(cache.try_no_mut(1), Some(10));
    assert_eq!(cache.try_no_mut(2), None);
}

#[test]
fn miss_changes_no_lookup() {
    let mut cache: GlyphCache<u32> = GlyphCache::new(2);
    cache.insert(5, 50);
    assert_eq!(cache.try_mut(6), None);
    assert_eq!(cache.try_no_mut(5), Some(50));
    assert_eq!(cache.len(), 1);
}

#[test]
fn single_slot_cache_replaces_its_entry() {
    let mut cache: GlyphCache<u32> = GlyphCache::new(1);
    cache.insert(1, 10);
    cache.insert(2, 20);
    assert_eq!(cache.len(), 1);
    assert_eq!(cache.try_no_mut(1), None);
    assert_eq!(cache.try_no_mut(2), Some(20));
}
