//! The capability contracts every storage backend must satisfy.

use vstd::prelude::*;

use crate::block_data::IBlockData;
use crate::block_id::BlockId;

verus! {

/// Why a storage operation failed.
///
/// Absence of a block is never an error: `load` reports it as `None`.
#[derive(Clone, Copy, Debug, PartialEq, Eq, Structural)]
pub enum BlockStoreError {
    /// Access to the underlying storage failed.
    IoError,
    /// A layer's configuration is unusable, e.g. its per-block overhead
    /// exceeds the physical block size.
    ConfigurationError,
}

/// The abstract state every capability contract is stated over.
pub trait BlockStoreModel {
    /// The committed contents: block id bytes mapped to payload bytes.
    spec fn blocks(&self) -> Map<Seq<u8>, Seq<u8>>;

    /// Structural invariant; established by construction and preserved by
    /// every operation.
    spec fn inv(&self) -> bool;

    /// Total per-block header overhead of this layer stack, in bytes.
    spec fn overhead(&self) -> nat;

    /// Which payload lengths this backend can hold in one block buffer.
    spec fn storable_len(len: nat) -> bool;
}

/// Maps a sequence of identifiers to their byte views.
pub open spec fn id_views(ids: Seq<BlockId>) -> Seq<Seq<u8>> {
    ids.map_values(|id: BlockId| id@)
}

/// Read capability of a block store.
pub trait BlockStoreReader: BlockStoreModel {
    /// Returns the stored content of `id`, or `None` if absent.
    fn load(&self, id: &BlockId) -> (r: Result<Option<Vec<u8>>, BlockStoreError>)
        requires
            self.inv(),
            id.wf(),
        ensures
            r is Ok ==> match r->Ok_0 {
                Some(d) => self.blocks().dom().contains(id@) && d@ == self.blocks()[id@],
                None => !self.blocks().dom().contains(id@),
            },
    ;

    /// Number of blocks currently committed.
    fn num_blocks(&self) -> (r: Result<u64, BlockStoreError>)
        requires
            self.inv(),
        ensures
            r is Ok ==> self.blocks().dom().finite() && r->Ok_0 == self.blocks().dom().len(),
    ;

    /// Capacity estimate for upper layers. Explicitly approximate: a backend
    /// may be optimistic, and callers must not treat it as a guarantee.
    fn estimate_num_free_bytes(&self) -> (r: Result<u64, BlockStoreError>)
        requires
            self.inv(),
    ;

    /// Usable payload size per block, given the physical block size of the
    /// storage underneath: the physical size minus the whole stack's
    /// per-block overhead. Fails with a configuration error when the
    /// physical size is too small to fit the overhead.
    fn block_size_from_physical_block_size(&self, block_size: u64) -> (r: Result<
        u64,
        BlockStoreError,
    >)
        requires
            self.inv(),
        ensures
            r is Ok <==> block_size >= self.overhead(),
            r is Ok ==> r->Ok_0 == block_size - self.overhead(),
            r is Err ==> r->Err_0 == BlockStoreError::ConfigurationError,
    ;

    /// Enumerates all currently known identifiers, in no guaranteed order.
    fn all_blocks(&self) -> (r: Result<Vec<BlockId>, BlockStoreError>)
        requires
            self.inv(),
        ensures
            r is Ok ==> id_views(r->Ok_0@).no_duplicates() && id_views(r->Ok_0@).to_set()
                == self.blocks().dom(),
    ;
}

/// Delete capability of a block store.
pub trait BlockStoreDeleter: BlockStoreModel {
    /// Deletes `id` if present (`true`) or no-ops if absent (`false`).
    fn remove(&mut self, id: &BlockId) -> (r: Result<bool, BlockStoreError>)
        requires
            old(self).inv(),
            id.wf(),
        ensures
            final(self).inv(),
            final(self).overhead() == old(self).overhead(),
            r is Ok ==> if old(self).blocks().dom().contains(id@) {
                r->Ok_0 == true && final(self).blocks() == old(self).blocks().remove(id@)
            } else {
                r->Ok_0 == false && final(self).blocks() == old(self).blocks()
            },
            r is Err ==> final(self).blocks() == old(self).blocks(),
    ;
}

/// Plain-bytes write capability of a block store.
///
/// A buffer passed in is consumed by the call, whatever the outcome. A call
/// that fails leaves the store unaffected: no block is ever half-written.
pub trait BlockStoreWriter: BlockStoreModel {
    /// Creates the block only if `id` does not exist yet: `true` if created,
    /// `false` if it already existed, in which case the existing content is
    /// left untouched.
    fn try_create(&mut self, id: &BlockId, data: &[u8]) -> (r: Result<bool, BlockStoreError>)
        requires
            old(self).inv(),
            id.wf(),
            Self::storable_len(data@.len()),
        ensures
            final(self).inv(),
            final(self).overhead() == old(self).overhead(),
            r is Ok ==> if old(self).blocks().dom().contains(id@) {
                r->Ok_0 == false && final(self).blocks() == old(self).blocks()
            } else {
                r->Ok_0 == true && final(self).blocks() == old(self).blocks().insert(id@, data@)
            },
            r is Err ==> final(self).blocks() == old(self).blocks(),
    ;

    /// Unconditionally writes the block, creating or overwriting it.
    fn store(&mut self, id: &BlockId, data: &[u8]) -> (r: Result<(), BlockStoreError>)
        requires
            old(self).inv(),
            id.wf(),
            Self::storable_len(data@.len()),
        ensures
            final(self).inv(),
            final(self).overhead() == old(self).overhead(),
            r is Ok ==> final(self).blocks() == old(self).blocks().insert(id@, data@),
            r is Err ==> final(self).blocks() == old(self).blocks(),
    ;
}

/// Write capability over backend-specific, prefix-reserved buffers.
///
/// Same semantics as [`BlockStoreWriter`], but consuming a pre-sized
/// [`IBlockData`] buffer instead of a plain byte slice, which gives the
/// backend access to the reserved prefix for zero-copy header insertion.
pub trait OptimizedBlockStoreWriter: BlockStoreModel {
    /// In-memory representation of the data of a block, allocated with
    /// [`OptimizedBlockStoreWriter::allocate`] and passed to
    /// [`OptimizedBlockStoreWriter::try_create_optimized`] or
    /// [`OptimizedBlockStoreWriter::store_optimized`].
    type BlockData: IBlockData;

    /// Allocates a block buffer whose visible payload has exactly `size`
    /// bytes, with this backend's hidden prefix slack reserved in front.
    fn allocate(size: usize) -> (r: Self::BlockData)
        requires
            Self::storable_len(size as nat),
        ensures
            r.wf(),
            r@.len() == size,
    ;

    /// [`BlockStoreWriter::try_create`] over a prefix-reserved buffer.
    fn try_create_optimized(&mut self, id: &BlockId, data: Self::BlockData) -> (r: Result<
        bool,
        BlockStoreError,
    >)
        requires
            old(self).inv(),
            id.wf(),
            data.wf(),
            Self::storable_len(data@.len()),
        ensures
            final(self).inv(),
            final(self).overhead() == old(self).overhead(),
            r is Ok ==> if old(self).blocks().dom().contains(id@) {
                r->Ok_0 == false && final(self).blocks() == old(self).blocks()
            } else {
                r->Ok_0 == true && final(self).blocks() == old(self).blocks().insert(id@, data@)
            },
            r is Err ==> final(self).blocks() == old(self).blocks(),
    ;

    /// [`BlockStoreWriter::store`] over a prefix-reserved buffer.
    fn store_optimized(&mut self, id: &BlockId, data: Self::BlockData) -> (r: Result<
        (),
        BlockStoreError,
    >)
        requires
            old(self).inv(),
            id.wf(),
            data.wf(),
            Self::storable_len(data@.len()),
        ensures
            final(self).inv(),
            final(self).overhead() == old(self).overhead(),
            r is Ok ==> final(self).blocks() == old(self).blocks().insert(id@, data@),
            r is Err ==> final(self).blocks() == old(self).blocks(),
    ;
}

/// Bridging adapter: any backend with the optimized write path gains the
/// plain-bytes one. The caller's bytes are copied into a freshly allocated
/// buffer of the exact required size, and the optimized call does the rest.
/// That the allocated buffer's visible length matches the caller's byte
/// count is a proved fact here, not a runtime assertion.
impl<B: OptimizedBlockStoreWriter> BlockStoreWriter for B {
    fn try_create(&mut self, id: &BlockId, data: &[u8]) -> (r: Result<bool, BlockStoreError>) {
        let mut block_data = Self::allocate(data.len());
        block_data.fill_from_slice(data);
        self.try_create_optimized(id, block_data)
    }

    fn store(&mut self, id: &BlockId, data: &[u8]) -> (r: Result<(), BlockStoreError>) {
        let mut block_data = Self::allocate(data.len());
        block_data.fill_from_slice(data);
        self.store_optimized(id, block_data)
    }
}

/// The combined capability a full backend implements: read, write and
/// delete.
pub trait BlockStore: BlockStoreReader + BlockStoreWriter + BlockStoreDeleter {

}

} // verus!
