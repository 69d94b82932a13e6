use quorumdb::StorageEngine;

#[test]
fn test_set_and_get() {
    let mut engine = StorageEngine::new();
    let _ = engine.set("key1".to_string(), "value1".to_string());
    assert_eq!(engine.get(&"key1".to_string()), Ok(Some("value1".to_string())));
}

#[test]
fn storage_tests_test_get_non_existing_key() {
    let engine = StorageEngine::new();
    assert_eq!(engine.get(&"non_existing".to_string()), Ok(None));
}

#[test]
fn test_delete() {
    let mut engine = StorageEngine::new();
    let _ = engine.set("key1".to_string(), "value1".to_string());
    assert_eq!(engine.delete(&"key1".to_string()), Ok(Some("value1".to_string())));
    assert_eq!(engine.get(&"key1".to_string()), Ok(None));
}
