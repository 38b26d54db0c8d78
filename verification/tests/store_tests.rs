use blockstore::{
    BlockId, BlockStoreDeleter, BlockStoreError, BlockStoreReader, BlockStoreWriter,
    InMemoryBlockStore, BLOCKID_LEN,
};

fn id_from(b: u8) -> BlockId {
    BlockId::from_slice(&[b; BLOCKID_LEN])
}

#[test]
fn load_of_never_created_id_is_none() {
    let store = InMemoryBlockStore::new();
    assert_eq!(store.load(&id_from(1)).unwrap(), None);
}

#[test]
fn try_create_fresh_stores_content() {
    let mut store = InMemoryBlockStore::new();
    let id = id_from(1);
    assert_eq!(store.try_create(&id, &[1, 2, 3]).unwrap(), true);
    assert_eq!(store.load(&id).unwrap(), Some(vec![1, 2, 3]));
}

#[test]
fn try_create_existing_keeps_original() {
    let mut store = InMemoryBlockStore::new();
    let id = id_from(1);
    assert_eq!(store.try_create(&id, &[1, 2, 3]).unwrap(), true);
    assert_eq!(store.try_create(&id, &[9, 9, 9]).unwrap(), false);
    assert_eq!(store.load(&id).unwrap(), Some(vec![1, 2, 3]));
}

#[test]
fn store_creates_missing_block() {
    let mut store = InMemoryBlockStore::new();
    let id = id_from(4);
    store.store(&id, &[8, 9]).unwrap();
    assert_eq!(store.load(&id).unwrap(), Some(vec![8, 9]));
}

#[test]
fn store_overwrites_existing_content() {
    let mut store = InMemoryBlockStore::new();
    let id = id_from(4);
    store.store(&id, &[8, 9]).unwrap();
    store.store(&id, &[10]).unwrap();
    assert_eq!(store.load(&id).unwrap(), Some(vec![10]));
}

#[test]
fn remove_present_then_absent() {
    let mut store = InMemoryBlockStore::new();
    let id = id_from(2);
    store.store(&id, &[5]).unwrap();
    assert_eq!(store.remove(&id).unwrap(), true);
    assert_eq!(store.load(&id).unwrap(), None);
    assert_eq!(store.remove(&id).unwrap(), false);
    assert_eq!(store.num_blocks().unwrap(), 0);
}

#[test]
fn num_blocks_matches_oracle_count() {
    let mut store = InMemoryBlockStore::new();
    let mut oracle: u64 = 0;
    assert_eq!(store.num_blocks().unwrap(), oracle);
    for b in 0..5u8 {
        assert!(store.try_create(&id_from(b), &[b]).unwrap());
        oracle += 1;
        assert_eq!(store.num_blocks().unwrap(), oracle);
    }
    // an overwrite and a failed conditional create leave the count alone
    store.store(&id_from(3), &[7, 7]).unwrap();
    assert!(!store.try_create(&id_from(3), &[8]).unwrap());
    assert_eq!(store.num_blocks().unwrap(), oracle);
    for b in 0..3u8 {
        assert!(store.remove(&id_from(b)).unwrap());
        oracle -= 1;
        assert_eq!(store.num_blocks().unwrap(), oracle);
    }
    assert!(!store.remove(&id_from(0)).unwrap());
    assert_eq!(store.num_blocks().unwrap(), oracle);
}

#[test]
fn all_blocks_enumerates_ids() {
    let mut store = InMemoryBlockStore::new();
    for b in [3u8, 1, 2] {
        assert!(store.try_create(&id_from(b), &[b]).unwrap());
    }
    let ids = store.all_blocks().unwrap();
    assert_eq!(ids.len(), 3);
    for b in [1u8, 2, 3] {
        let want = id_from(b);
        assert!(ids.iter().any(|got| got == &want));
    }
}

#[test]
fn estimate_num_free_bytes_answers() {
    let store = InMemoryBlockStore::new();
    assert!(store.estimate_num_free_bytes().is_ok());
}

#[test]
fn block_size_no_overhead_for_inmemory() {
    let store = InMemoryBlockStore::new();
    assert_eq!(store.block_size_from_physical_block_size(0).unwrap(), 0);
    assert_eq!(store.block_size_from_physical_block_size(4096).unwrap(), 4096);
}

#[test]
fn end_to_end_scenario() {
    let mut store = InMemoryBlockStore::new();
    let a = id_from(0xA);
    assert_eq!(store.try_create(&a, &[1, 2, 3]).unwrap(), true);
    assert_eq!(store.load(&a).unwrap(), Some(vec![1, 2, 3]));
    assert_eq!(store.try_create(&a, &[9, 9, 9]).unwrap(), false);
    assert_eq!(store.load(&a).unwrap(), Some(vec![1, 2, 3]));
    store.store(&a, &[9, 9, 9]).unwrap();
    assert_eq!(store.load(&a).unwrap(), Some(vec![9, 9, 9]));
    assert_eq!(store.remove(&a).unwrap(), true);
    assert_eq!(store.load(&a).unwrap(), None);
    assert_eq!(store.remove(&a).unwrap(), false);
}

#[test]
fn block_id_equality_and_bytes() {
    let bytes = [5u8; BLOCKID_LEN];
    let a = BlockId::from_slice(&bytes);
    let b = BlockId::from_slice(&bytes);
    let c = id_from(6);
    assert!(a.equals(&b));
    assert!(a == b);
    assert!(!a.equals(&c));
    assert!(a != c);
    assert_eq!(a.as_bytes(), &bytes);
    let d = a.clone();
    assert!(d == a);
}

#[test]
fn empty_payload_roundtrip() {
    let mut store = InMemoryBlockStore::new();
    let id = id_from(9);
    store.store(&id, &[]).unwrap();
    assert_eq!(store.load(&id).unwrap(), Some(vec![]));
    assert_eq!(store.num_blocks().unwrap(), 1);
}

#[test]
fn empty_store_has_no_blocks() {
    let store = InMemoryBlockStore::new();
    assert_eq!(store.num_blocks().unwrap(), 0);
    assert_eq!(store.all_blocks().unwrap().len(), 0);
    let _ = BlockStoreError::IoError;
}
