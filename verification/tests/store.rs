use galaxy_proxy::routing::{ChannelInfo, GroupInfo, ModelMaps};
use galaxy_proxy::store::{KeyedStore, ProxyCache};

fn channel(id: &str, name: &str) -> ChannelInfo {
    ChannelInfo {
        id: id.to_string(),
        name: name.to_string(),
        api_keys: vec![],
        endpoints: vec![],
        model_maps: ModelMaps { entries: vec![] },
    }
}

#[test]
fn store_reads_back_what_was_inserted() {
    let mut s: KeyedStore<i32> = KeyedStore::new();
    assert_eq!(s.get("a"), None);
    s.insert("a".to_string(), 1);
    s.insert("b".to_string(), 2);
    s.insert("a".to_string(), 3);
    assert_eq!(s.get("a"), Some(&3));
    assert_eq!(s.get("b"), Some(&2));
    s.remove("a");
    assert_eq!(s.get("a"), None);
    assert_eq!(s.get("b"), Some(&2));
    s.clear();
    assert_eq!(s.get("b"), None);
}

#[test]
fn proxy_cache_keeps_channels_and_groups_apart() {
    let mut cache = ProxyCache::new();
    cache.set_channel(channel("c1", "first"));
    cache.set_group(GroupInfo { id: "g1".to_string(), name: "fast".to_string(), items: vec![] });
    assert_eq!(cache.get_channel("c1").map(|c| c.name.clone()), Some("first".to_string()));
    assert_eq!(cache.get_group("fast").map(|g| g.id.clone()), Some("g1".to_string()));
    assert!(cache.get_group("c1").is_none());
    cache.set_channel(channel("c1", "renamed"));
    assert_eq!(cache.get_channel("c1").map(|c| c.name.clone()), Some("renamed".to_string()));
    cache.invalidate_all_channels();
    assert!(cache.get_channel("c1").is_none());
    assert!(cache.get_group("fast").is_some());
    cache.invalidate_group("fast");
    assert!(cache.get_group("fast").is_none());
}
