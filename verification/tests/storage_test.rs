use hypernova_core::block::Block;
use hypernova_core::storage::{MemoryStorage, Storage};

#[test]
fn store_then_load_returns_block_with_same_hash() {
    let mut store = MemoryStorage::new();
    let block = Block::new("0".repeat(64), 0, Vec::new(), 0);
    let hash = block.hash();
    store.store_block(&block).unwrap();
    let loaded = store.load_blocks().unwrap();
    assert_eq!(loaded.len(), 1);
    assert_eq!(loaded[loaded.len() - 1].hash(), hash);
}

#[test]
fn get_block_finds_by_hash() {
    let mut store = MemoryStorage::new();
    let block = Block::new("0".repeat(64), 0, Vec::new(), 0);
    let hash = block.hash();
    store.store_block(&block).unwrap();
    let found = store.get_block(&hash).unwrap().unwrap();
    assert_eq!(found.hash(), hash);
    assert!(store.get_block(&"f".repeat(64)).unwrap().is_none());
}

#[test]
fn data_records_round_trip() {
    let mut store = MemoryStorage::new();
    assert!(store.load_data("config").unwrap().is_none());
    store.store_data("config", b"v1").unwrap();
    assert_eq!(store.load_data("config").unwrap().unwrap(), b"v1".to_vec());
    store.store_data("config", b"v2").unwrap();
    assert_eq!(store.load_data("config").unwrap().unwrap(), b"v2".to_vec());
    assert!(store.load_data("other").unwrap().is_none());
}
