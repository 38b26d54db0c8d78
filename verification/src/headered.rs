//! A layered backend that frames every block with a fixed header tag.
//!
//! This is the canonical shape of a layered block store: it owns an inner
//! store, prepends a fixed-size header (here: a constant tag, as an
//! integrity or format-version layer would) on every write, verifies and
//! strips it on every read, and subtracts its own overhead before
//! delegating size computations inward. The header is written through the
//! optimized write path: the block buffer is allocated with the header's
//! bytes as hidden prefix slack, so the payload is never copied to make
//! room for the header.

use vstd::prelude::*;

use crate::block_data::{BlockDataWrapper, IBlockData};
use crate::block_id::BlockId;
use crate::data::Data;
use crate::store::{
    BlockStore, BlockStoreDeleter, BlockStoreError, BlockStoreModel, BlockStoreReader,
    BlockStoreWriter, OptimizedBlockStoreWriter,
};

verus! {

/// Number of header bytes this layer prepends to every block.
pub const HEADER_LEN: usize = 8;

/// A block store layered over an inner store, framing each block with a
/// fixed `HEADER_LEN`-byte tag.
pub struct HeaderedBlockStore<B: BlockStore> {
    inner: B,
    header: Vec<u8>,
}

/// Checks whether `v` begins with the bytes of `h`.
fn begins_with(v: &Vec<u8>, h: &Vec<u8>) -> (r: bool)
    requires
        h@.len() <= v@.len(),
    ensures
        r == (v@.take(h@.len() as int) == h@),
{
    let n = h.len();
    let mut j: usize = 0;
    while j < n
        invariant
            j <= n,
            n == h@.len(),
            n <= v@.len(),
            forall|i: int| 0 <= i < j ==> v@[i] == h@[i],
        decreases n - j,
    {
        if v[j] != h[j] {
            proof {
                assert(v@.take(n as int)[j as int] != h@[j as int]);
            }
            return false;
        }
        j += 1;
    }
    proof {
        assert(v@.take(n as int) =~= h@);
    }
    true
}

/// Copies the bytes of `v` from `start` on into a fresh vector.
fn suffix_from(v: &Vec<u8>, start: usize) -> (r: Vec<u8>)
    requires
        start <= v@.len(),
    ensures
        r@ == v@.skip(start as int),
{
    let n = v.len();
    let mut r: Vec<u8> = Vec::new();
    let mut j: usize = start;
    while j < n
        invariant
            start <= j <= n,
            n == v@.len(),
            r@.len() == j - start,
            forall|i: int| 0 <= i < r@.len() ==> r@[i] == v@[start + i],
        decreases n - j,
    {
        r.push(v[j]);
        j += 1;
    }
    proof {
        assert(r@ =~= v@.skip(start as int));
    }
    r
}

/// Turns a prefix-reserved payload buffer into the framed block bytes:
/// the header tag, then the payload, with the payload bytes never moved.
fn frame_block(header: &Vec<u8>, data: BlockDataWrapper<HEADER_LEN>) -> (r: Vec<u8>)
    requires
        header@.len() == HEADER_LEN,
        data.wf(),
    ensures
        r@ == header@ + data@,
{
    let mut raw = data.extract();
    raw.grow_region(HEADER_LEN);
    let ghost payload = data@;
    let mut j: usize = 0;
    while j < HEADER_LEN
        invariant
            j <= HEADER_LEN,
            raw.wf(),
            raw.prefix_len() == 0,
            header@.len() == HEADER_LEN,
            raw@.len() == payload.len() + HEADER_LEN,
            forall|i: int| 0 <= i < j ==> raw@[i] == header@[i],
            forall|i: int| HEADER_LEN <= i < raw@.len() ==> raw@[i] == payload[i - HEADER_LEN],
        decreases HEADER_LEN - j,
    {
        let b = header[j];
        raw.write(j, b);
        j += 1;
    }
    proof {
        assert(raw@ =~= header@ + payload);
    }
    let content = raw.into_vec();
    proof {
        assert(content@ =~= raw@);
    }
    content
}

impl<B: BlockStore> BlockStoreModel for HeaderedBlockStore<B> {
    closed spec fn blocks(&self) -> Map<Seq<u8>, Seq<u8>> {
        self.inner.blocks().map_values(|v: Seq<u8>| v.skip(HEADER_LEN as int))
    }

    closed spec fn inv(&self) -> bool {
        &&& self.inner.inv()
        &&& self.header@.len() == HEADER_LEN
        &&& forall|k: Seq<u8>|
            self.inner.blocks().dom().contains(k) ==> (#[trigger] self.inner.blocks()[k]).len()
                >= HEADER_LEN && self.inner.blocks()[k].take(HEADER_LEN as int) == self.header@
    }

    closed spec fn overhead(&self) -> nat {
        HEADER_LEN as nat + self.inner.overhead()
    }

    open spec fn storable_len(len: nat) -> bool {
        len + HEADER_LEN as nat <= usize::MAX && B::storable_len(len + HEADER_LEN as nat)
    }
}

impl<B: BlockStore> HeaderedBlockStore<B> {
    /// The header tag this layer frames every block with.
    pub closed spec fn tag(&self) -> Seq<u8> {
        self.header@
    }

    /// Layers a header-framing store over an inner store. The inner store
    /// may be fresh or reopened: every block it already holds must be the
    /// framed image of a payload, that is, begin with this layer's header.
    /// This layer then presents each such block as its payload alone.
    pub fn new(inner: B, header: Vec<u8>) -> (r: Self)
        requires
            inner.inv(),
            header@.len() == HEADER_LEN,
            forall|k: Seq<u8>|
                inner.blocks().dom().contains(k) ==> (#[trigger] inner.blocks()[k]).len()
                    >= HEADER_LEN && inner.blocks()[k].take(HEADER_LEN as int) == header@,
        ensures
            r.inv(),
            r.overhead() == HEADER_LEN + inner.overhead(),
            r.tag() == header@,
            r.blocks().dom() == inner.blocks().dom(),
            forall|k: Seq<u8>|
                inner.blocks().dom().contains(k) ==> #[trigger] r.blocks()[k]
                    == inner.blocks()[k].skip(HEADER_LEN as int),
            inner.blocks() == Map::<Seq<u8>, Seq<u8>>::empty() ==> r.blocks() == Map::<
                Seq<u8>,
                Seq<u8>,
            >::empty(),
    {
        let r = HeaderedBlockStore { inner, header };
        proof {
            assert(r.blocks().dom() =~= r.inner.blocks().dom());
            if r.inner.blocks() == Map::<Seq<u8>, Seq<u8>>::empty() {
                assert(r.blocks() =~= Map::<Seq<u8>, Seq<u8>>::empty());
            }
        }
        r
    }

    /// Surrenders the inner store. Every block in it is the framed image of
    /// a block of this layer: the header tag followed by the payload.
    pub fn into_inner(self) -> (r: B)
        requires
            self.inv(),
        ensures
            r.inv(),
            r.blocks().dom() == self.blocks().dom(),
            forall|k: Seq<u8>|
                self.blocks().dom().contains(k) ==> #[trigger] r.blocks()[k] == self.tag()
                    + self.blocks()[k],
    {
        proof {
            assert(self.inner.blocks().dom() =~= self.blocks().dom());
            assert forall|k: Seq<u8>| self.blocks().dom().contains(k) implies #[trigger] self
                .inner.blocks()[k] == self.tag() + self.blocks()[k] by {
                assert(self.inner.blocks()[k] =~= self.tag() + self.inner.blocks()[k].skip(
                    HEADER_LEN as int,
                ));
            };
        }
        self.inner
    }
}

impl<B: BlockStore> BlockStoreReader for HeaderedBlockStore<B> {
    fn load(&self, id: &BlockId) -> (r: Result<Option<Vec<u8>>, BlockStoreError>) {
        match self.inner.load(id) {
            Ok(Some(v)) => {
                if !begins_with(&v, &self.header) {
                    return Err(BlockStoreError::IoError);
                }
                let payload = suffix_from(&v, HEADER_LEN);
                proof {
                    assert(self.blocks().dom().contains(id@));
                    assert(payload@ == self.blocks()[id@]);
                }
                Ok(Some(payload))
            },
            Ok(None) => {
                proof {
                    assert(!self.blocks().dom().contains(id@));
                }
                Ok(None)
            },
            Err(e) => Err(e),
        }
    }

    fn num_blocks(&self) -> (r: Result<u64, BlockStoreError>) {
        let r = self.inner.num_blocks();
        proof {
            if r is Ok {
                assert(self.blocks().dom() =~= self.inner.blocks().dom());
            }
        }
        r
    }

    fn estimate_num_free_bytes(&self) -> (r: Result<u64, BlockStoreError>) {
        self.inner.estimate_num_free_bytes()
    }

    fn block_size_from_physical_block_size(&self, block_size: u64) -> (r: Result<
        u64,
        BlockStoreError,
    >) {
        if block_size < HEADER_LEN as u64 {
            return Err(BlockStoreError::ConfigurationError);
        }
        self.inner.block_size_from_physical_block_size(block_size - HEADER_LEN as u64)
    }

    fn all_blocks(&self) -> (r: Result<Vec<BlockId>, BlockStoreError>) {
        let r = self.inner.all_blocks();
        proof {
            if r is Ok {
                assert(self.blocks().dom() =~= self.inner.blocks().dom());
            }
        }
        r
    }
}

impl<B: BlockStore> BlockStoreDeleter for HeaderedBlockStore<B> {
    fn remove(&mut self, id: &BlockId) -> (r: Result<bool, BlockStoreError>) {
        let ghost old_self = *self;
        let r = self.inner.remove(id);
        proof {
            assert(old_self.blocks().dom().contains(id@) == old_self.inner.blocks().dom().contains(
                id@,
            ));
            if r is Ok && old_self.inner.blocks().dom().contains(id@) {
                assert(self.blocks() =~= old_self.blocks().remove(id@));
            }
        }
        r
    }
}

impl<B: BlockStore> OptimizedBlockStoreWriter for HeaderedBlockStore<B> {
    type BlockData = BlockDataWrapper<HEADER_LEN>;

    fn allocate(size: usize) -> (r: Self::BlockData) {
        let data = Data::zeroed(HEADER_LEN, size);
        <BlockDataWrapper<HEADER_LEN> as IBlockData>::new(data)
    }

    fn try_create_optimized(&mut self, id: &BlockId, data: Self::BlockData) -> (r: Result<
        bool,
        BlockStoreError,
    >) {
        let ghost old_self = *self;
        let ghost payload = data@;
        let content = frame_block(&self.header, data);
        let r = self.inner.try_create(id, content.as_slice());
        proof {
            assert(old_self.blocks().dom().contains(id@) == old_self.inner.blocks().dom().contains(
                id@,
            ));
            if r is Ok && !old_self.inner.blocks().dom().contains(id@) {
                assert((old_self.tag() + payload).skip(HEADER_LEN as int) =~= payload);
                assert((old_self.tag() + payload).take(HEADER_LEN as int) =~= old_self.tag());
                assert(self.blocks() =~= old_self.blocks().insert(id@, payload));
            }
        }
        r
    }

    fn store_optimized(&mut self, id: &BlockId, data: Self::BlockData) -> (r: Result<
        (),
        BlockStoreError,
    >) {
        let ghost old_self = *self;
        let ghost payload = data@;
        let content = frame_block(&self.header, data);
        let r = self.inner.store(id, content.as_slice());
        proof {
            if r is Ok {
                assert((old_self.tag() + payload).skip(HEADER_LEN as int) =~= payload);
                assert((old_self.tag() + payload).take(HEADER_LEN as int) =~= old_self.tag());
                assert(self.blocks() =~= old_self.blocks().insert(id@, payload));
            }
        }
        r
    }
}

impl<B: BlockStore> BlockStore for HeaderedBlockStore<B> {

}

} // verus!
