use serde_json::Value;
use vol_llm::cache::NodeDataCache;

fn obj(k: &str, v: &str) -> Value {
    let mut m = serde_json::Map::new();
    m.insert(k.to_string(), Value::String(v.to_string()));
    Value::Object(m)
}

#[test]
fn test_get_returns_none_for_missing_node() {
    let cache: NodeDataCache<Value> = NodeDataCache::new();
    assert!(cache.get("nonexistent-node").is_none());
}

#[test]
fn test_get_or_insert_creates_entry() {
    let mut cache: NodeDataCache<Value> = NodeDataCache::new();
    {
        let data = cache.get_or_insert("node-1");
        assert!(data.is_empty());
        data.insert("key".into(), Value::String("value".into()));
    }
    let data = cache.get("node-1").expect("entry should exist");
    assert_eq!(data.get("key"), Some(&Value::String("value".into())));
}

#[test]
fn test_invalidate_removes_entry() {
    let mut cache: NodeDataCache<Value> = NodeDataCache::new();
    cache.get_or_insert("node-1");
    assert!(cache.get("node-1").is_some());
    cache.invalidate("node-1");
    assert!(cache.get("node-1").is_none());
    cache.invalidate("never-existed");
}

#[test]
fn test_cached_data_persists_across_node_switches() {
    let mut cache: NodeDataCache<Value> = NodeDataCache::new();
    let data_a = cache.get_or_insert("node-A");
    data_a.insert("files".to_string(), obj("test", "data"));
    let data_b = cache.get_or_insert("node-B");
    data_b.insert("files".to_string(), obj("other", "data"));
    assert!(cache.get("node-A").unwrap().get("files").is_some());
    assert!(cache.get("node-B").unwrap().get("files").is_some());
    assert_eq!(cache.get("node-A").unwrap().get("files"), Some(&obj("test", "data")));
    assert_eq!(cache.get("node-B").unwrap().get("files"), Some(&obj("other", "data")));
    assert!(cache.get("node-A").unwrap().get("files").is_some());
}

#[test]
fn test_cache_invalidate_removes_entry() {
    let mut cache: NodeDataCache<Value> = NodeDataCache::new();
    cache.get_or_insert("node-A");
    cache.invalidate("node-A");
    assert!(cache.get("node-A").is_none());
}

#[test]
fn test_cache_invalidate_is_idempotent() {
    let mut cache: NodeDataCache<Value> = NodeDataCache::new();
    cache.invalidate("never-existed");
    assert!(cache.get("never-existed").is_none());
}

#[test]
fn test_get_or_insert_is_idempotent() {
    let mut cache: NodeDataCache<Value> = NodeDataCache::new();
    cache.get_or_insert("node-A").insert("k".into(), Value::from(1));
    let second = cache.get_or_insert("node-A");
    assert_eq!(second.get("k"), Some(&Value::from(1)));
}

#[test]
fn test_get_mut_returns_none_for_missing() {
    let mut cache: NodeDataCache<Value> = NodeDataCache::new();
    assert!(cache.get_mut("missing").is_none());
}

#[test]
fn test_clone_produces_independent_copy() {
    let mut cache: NodeDataCache<Value> = NodeDataCache::new();
    cache.get_or_insert("node-A").insert("x".into(), Value::String("v".into()));
    let mut cloned = cache.clone();
    cloned.get_or_insert("node-A").insert("x".into(), Value::String("modified".into()));
    assert_eq!(cache.get("node-A").unwrap().get("x"), Some(&Value::String("v".into())));
}

#[test]
fn invalidating_one_node_keeps_the_others() {
    let mut cache: NodeDataCache<Value> = NodeDataCache::new();
    cache.get_or_insert("a").insert("k".into(), Value::from(1));
    cache.get_or_insert("b").insert("k".into(), Value::from(2));
    cache.invalidate("a");
    assert!(!cache.contains("a"));
    assert_eq!(cache.get("b").unwrap().get("k"), Some(&Value::from(2)));
}

#[test]
fn insert_replaces_and_returns_previous_value() {
    let mut cache: NodeDataCache<Value> = NodeDataCache::new();
    let d = cache.get_or_insert("n");
    assert_eq!(d.insert("k".into(), Value::from(1)), None);
    assert_eq!(d.insert("k".into(), Value::from(2)), Some(Value::from(1)));
    d.remove("k");
    assert!(d.get("k").is_none());
}
