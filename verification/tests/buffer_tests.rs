use blockstore::{
    BlockDataWrapper, BlockId, BlockStoreDeleter, BlockStoreError, BlockStoreReader,
    BlockStoreWriter, Data, HeaderedBlockStore, IBlockData, InMemoryBlockStore,
    OptimizedBlockStoreWriter, BLOCKID_LEN, HEADER_LEN,
};

fn id_from(b: u8) -> BlockId {
    BlockId::from_slice(&[b; BLOCKID_LEN])
}

#[test]
fn data_grow_region_prepends_in_place() {
    let mut d = Data::zeroed(4, 3);
    assert_eq!(d.len(), 3);
    d.write(0, 10);
    d.write(1, 11);
    d.write(2, 12);
    assert_eq!(d.read(0), 10);
    d.grow_region(4);
    assert_eq!(d.len(), 7);
    assert_eq!(d.region_to_vec(), vec![0, 0, 0, 0, 10, 11, 12]);
    assert_eq!(d.into_vec(), vec![0, 0, 0, 0, 10, 11, 12]);
}

#[test]
fn data_from_vec_is_fully_visible() {
    let d = Data::from_vec(vec![1, 2, 3]);
    assert_eq!(d.len(), 3);
    assert_eq!(d.region_to_vec(), vec![1, 2, 3]);
    let d2 = Data::from_vec_with_prefix(vec![1, 2, 3], 2);
    assert_eq!(d2.len(), 1);
    assert_eq!(d2.region_to_vec(), vec![3]);
}

#[test]
fn block_data_wrapper_views_exactly_the_payload() {
    let mut bd: BlockDataWrapper<2> = IBlockData::new(Data::zeroed(2, 4));
    assert_eq!(bd.len(), 4);
    bd.fill_from_slice(&[4, 3, 2, 1]);
    bd.write(0, 9);
    assert_eq!(bd.read(0), 9);
    assert_eq!(bd.read(3), 1);
    let raw = bd.extract();
    assert_eq!(raw.len(), 4);
    assert_eq!(raw.region_to_vec(), vec![9, 3, 2, 1]);
    assert_eq!(raw.into_vec(), vec![0, 0, 9, 3, 2, 1]);
}

#[test]
fn allocate_visible_length_is_exact() {
    let bd = <InMemoryBlockStore as OptimizedBlockStoreWriter>::allocate(5);
    assert_eq!(bd.len(), 5);
    let hd = <HeaderedBlockStore<InMemoryBlockStore> as OptimizedBlockStoreWriter>::allocate(5);
    assert_eq!(hd.len(), 5);
}

#[test]
fn optimized_roundtrip_inmemory() {
    let mut store = InMemoryBlockStore::new();
    let id = id_from(1);
    let mut bd = <InMemoryBlockStore as OptimizedBlockStoreWriter>::allocate(3);
    bd.fill_from_slice(&[1, 2, 3]);
    store.store_optimized(&id, bd).unwrap();
    assert_eq!(store.load(&id).unwrap(), Some(vec![1, 2, 3]));
    let mut bd2 = <InMemoryBlockStore as OptimizedBlockStoreWriter>::allocate(2);
    bd2.fill_from_slice(&[4, 5]);
    assert!(!store.try_create_optimized(&id, bd2).unwrap());
    assert_eq!(store.load(&id).unwrap(), Some(vec![1, 2, 3]));
}

#[test]
fn optimized_roundtrip_through_header_layer() {
    let mut store = HeaderedBlockStore::new(InMemoryBlockStore::new(), vec![0xAB; HEADER_LEN]);
    let id = id_from(2);
    let mut bd = <HeaderedBlockStore<InMemoryBlockStore> as OptimizedBlockStoreWriter>::allocate(3);
    bd.fill_from_slice(&[1, 2, 3]);
    store.store_optimized(&id, bd).unwrap();
    assert_eq!(store.load(&id).unwrap(), Some(vec![1, 2, 3]));
}

#[test]
fn headered_empty_payload_roundtrip() {
    let mut store = HeaderedBlockStore::new(InMemoryBlockStore::new(), vec![5; HEADER_LEN]);
    let id = id_from(8);
    let mut bd = <HeaderedBlockStore<InMemoryBlockStore> as OptimizedBlockStoreWriter>::allocate(0);
    bd.fill_from_slice(&[]);
    store.store_optimized(&id, bd).unwrap();
    assert_eq!(store.load(&id).unwrap(), Some(vec![]));
    let inner = store.into_inner();
    assert_eq!(inner.load(&id).unwrap().unwrap(), vec![5; HEADER_LEN]);
}

#[test]
fn headered_store_behaves_like_plain_store() {
    let mut store = HeaderedBlockStore::new(InMemoryBlockStore::new(), vec![7; HEADER_LEN]);
    let id = id_from(3);
    assert_eq!(store.load(&id).unwrap(), None);
    assert!(store.try_create(&id, &[1]).unwrap());
    assert!(!store.try_create(&id, &[2]).unwrap());
    assert_eq!(store.load(&id).unwrap(), Some(vec![1]));
    store.store(&id, &[2, 3]).unwrap();
    assert_eq!(store.load(&id).unwrap(), Some(vec![2, 3]));
    assert_eq!(store.num_blocks().unwrap(), 1);
    assert!(store.remove(&id).unwrap());
    assert_eq!(store.load(&id).unwrap(), None);
    assert!(!store.remove(&id).unwrap());
}

#[test]
fn headered_frames_inner_blocks() {
    let mut store = HeaderedBlockStore::new(InMemoryBlockStore::new(), vec![7; HEADER_LEN]);
    let id = id_from(4);
    store.store(&id, &[1, 2, 3]).unwrap();
    let inner = store.into_inner();
    let raw = inner.load(&id).unwrap().unwrap();
    assert_eq!(raw, [vec![7; HEADER_LEN], vec![1, 2, 3]].concat());
}

#[test]
fn headered_reopens_existing_framed_store() {
    let mut inner = InMemoryBlockStore::new();
    let id = id_from(6);
    inner
        .store(&id, &[vec![4; HEADER_LEN], vec![1, 2]].concat())
        .unwrap();
    let store = HeaderedBlockStore::new(inner, vec![4; HEADER_LEN]);
    assert_eq!(store.load(&id).unwrap(), Some(vec![1, 2]));
    assert_eq!(store.num_blocks().unwrap(), 1);
}

#[test]
fn stacked_layers_frame_twice() {
    let mid = HeaderedBlockStore::new(InMemoryBlockStore::new(), vec![1; HEADER_LEN]);
    let mut outer = HeaderedBlockStore::new(mid, vec![2; HEADER_LEN]);
    let id = id_from(5);
    outer.store(&id, &[5, 6]).unwrap();
    assert_eq!(outer.load(&id).unwrap(), Some(vec![5, 6]));
    let mid_again = outer.into_inner();
    assert_eq!(
        mid_again.load(&id).unwrap().unwrap(),
        [vec![2; HEADER_LEN], vec![5, 6]].concat()
    );
    let inner = mid_again.into_inner();
    assert_eq!(
        inner.load(&id).unwrap().unwrap(),
        [vec![1; HEADER_LEN], vec![2; HEADER_LEN], vec![5, 6]].concat()
    );
}

#[test]
fn block_size_composes_through_layers() {
    let mid = HeaderedBlockStore::new(InMemoryBlockStore::new(), vec![1; HEADER_LEN]);
    let outer = HeaderedBlockStore::new(mid, vec![2; HEADER_LEN]);
    // each layer subtracts its own overhead, the physical store none
    assert_eq!(outer.block_size_from_physical_block_size(100).unwrap(), 84);
    assert_eq!(
        outer.block_size_from_physical_block_size(2 * HEADER_LEN as u64).unwrap(),
        0
    );
}

#[test]
fn block_size_error_when_physical_too_small() {
    let store = HeaderedBlockStore::new(InMemoryBlockStore::new(), vec![0; HEADER_LEN]);
    assert_eq!(
        store.block_size_from_physical_block_size(HEADER_LEN as u64 - 1),
        Err(BlockStoreError::ConfigurationError)
    );
}
