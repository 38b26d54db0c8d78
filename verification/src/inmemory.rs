//! A concrete backend keeping all blocks in process memory.

use vstd::prelude::*;

use crate::block_data::{BlockDataWrapper, IBlockData};
use crate::block_id::{copy_bytes, BlockId};
use crate::store::{
    id_views, BlockStore, BlockStoreDeleter, BlockStoreError, BlockStoreModel, BlockStoreReader,
    OptimizedBlockStoreWriter,
};
use crate::data::Data;

verus! {

/// One committed block: its identifier and its payload.
struct BlockEntry {
    id: BlockId,
    content: Vec<u8>,
}

/// The key-to-bytes contents described by a sequence of entries.
spec fn entries_model(s: Seq<BlockEntry>) -> Map<Seq<u8>, Seq<u8>>
    decreases s.len(),
{
    if s.len() == 0 {
        Map::empty()
    } else {
        entries_model(s.drop_last()).insert(s.last().id@, s.last().content@)
    }
}

/// No two entries carry the same identifier.
spec fn unique_ids(s: Seq<BlockEntry>) -> bool {
    forall|i: int, j: int| 0 <= i < j < s.len() ==> s[i].id@ != s[j].id@
}

/// Identifiers are unique and well-formed.
spec fn wf_entries(s: Seq<BlockEntry>) -> bool {
    unique_ids(s) && forall|i: int| 0 <= i < s.len() ==> (#[trigger] s[i]).id.wf()
}

/// A key is in the model exactly when some entry carries it.
proof fn lemma_model_dom(s: Seq<BlockEntry>)
    ensures
        forall|k: Seq<u8>| #[trigger] entries_model(s).dom().contains(k) <==> (exists|i: int|
            0 <= i < s.len() && (#[trigger] s[i]).id@ == k),
    decreases s.len(),
{
    if s.len() == 0 {
    } else {
        let t = s.drop_last();
        lemma_model_dom(t);
        assert forall|k: Seq<u8>| entries_model(s).dom().contains(k) implies (exists|i: int|
            0 <= i < s.len() && (#[trigger] s[i]).id@ == k) by {
            if k == s.last().id@ {
                assert(s[s.len() - 1].id@ == k);
            } else {
                assert(entries_model(t).dom().contains(k));
                let i = choose|i: int| 0 <= i < t.len() && (#[trigger] t[i]).id@ == k;
                assert(s[i].id@ == k);
            }
        };
        assert forall|k: Seq<u8>| (exists|i: int| 0 <= i < s.len() && (#[trigger] s[i]).id@ == k)
            implies entries_model(s).dom().contains(k) by {
            let i = choose|i: int| 0 <= i < s.len() && (#[trigger] s[i]).id@ == k;
            if i < s.len() - 1 {
                assert(t[i].id@ == k);
                assert(entries_model(t).dom().contains(k));
            }
        };
    }
}

/// With unique identifiers, each entry is the binding for its identifier.
proof fn lemma_model_get(s: Seq<BlockEntry>, i: int)
    requires
        unique_ids(s),
        0 <= i < s.len(),
    ensures
        entries_model(s).dom().contains(s[i].id@),
        entries_model(s)[s[i].id@] == s[i].content@,
    decreases s.len(),
{
    if i == s.len() - 1 {
    } else {
        let t = s.drop_last();
        assert(unique_ids(t));
        lemma_model_get(t, i);
        assert(t[i] == s[i]);
        assert(s[i].id@ != s.last().id@);
    }
}

/// Replacing the entry at `i` by one with the same identifier updates that
/// one binding.
proof fn lemma_model_update(s: Seq<BlockEntry>, i: int, e: BlockEntry)
    requires
        unique_ids(s),
        0 <= i < s.len(),
        e.id@ == s[i].id@,
    ensures
        entries_model(s.update(i, e)) == entries_model(s).insert(e.id@, e.content@),
    decreases s.len(),
{
    let s2 = s.update(i, e);
    if i == s.len() - 1 {
        assert(s2.drop_last() =~= s.drop_last());
        assert(s2.last() == e);
        assert(entries_model(s2) =~= entries_model(s).insert(e.id@, e.content@));
    } else {
        let t = s.drop_last();
        assert(unique_ids(t));
        assert(t[i] == s[i]);
        lemma_model_update(t, i, e);
        assert(s2.drop_last() =~= t.update(i, e));
        assert(s2.last() == s.last());
        assert(e.id@ != s.last().id@);
        assert(entries_model(s2) =~= entries_model(s).insert(e.id@, e.content@));
    }
}

/// Appending an entry adds its binding.
proof fn lemma_model_push(s: Seq<BlockEntry>, e: BlockEntry)
    ensures
        entries_model(s.push(e)) == entries_model(s).insert(e.id@, e.content@),
{
    assert(s.push(e).drop_last() =~= s);
    assert(s.push(e).last() == e);
}

/// Removing the entry at `i` removes exactly its binding.
proof fn lemma_model_remove(s: Seq<BlockEntry>, i: int)
    requires
        unique_ids(s),
        0 <= i < s.len(),
    ensures
        entries_model(s.remove(i)) == entries_model(s).remove(s[i].id@),
    decreases s.len(),
{
    let s2 = s.remove(i);
    if i == s.len() - 1 {
        assert(s2 =~= s.drop_last());
        lemma_model_dom(s.drop_last());
        assert forall|j: int| 0 <= j < s.len() - 1 implies (#[trigger] s.drop_last()[j]).id@
            != s[i].id@ by {
            assert(s.drop_last()[j] == s[j]);
        };
        assert(!entries_model(s.drop_last()).dom().contains(s[i].id@));
        assert(entries_model(s2) =~= entries_model(s).remove(s[i].id@));
    } else {
        let t = s.drop_last();
        assert(unique_ids(t));
        assert(t[i] == s[i]);
        lemma_model_remove(t, i);
        assert(s2.drop_last() =~= t.remove(i));
        assert(s2.last() == s.last());
        assert(s[i].id@ != s.last().id@);
        assert(entries_model(s2) =~= entries_model(s).remove(s[i].id@));
    }
}

/// With unique identifiers, the model has one binding per entry.
proof fn lemma_model_card(s: Seq<BlockEntry>)
    requires
        unique_ids(s),
    ensures
        entries_model(s).dom().finite(),
        entries_model(s).dom().len() == s.len(),
    decreases s.len(),
{
    if s.len() == 0 {
        assert(entries_model(s).dom() =~= Set::<Seq<u8>>::empty());
    } else {
        let t = s.drop_last();
        assert(unique_ids(t));
        lemma_model_card(t);
        lemma_model_dom(t);
        assert forall|j: int| 0 <= j < t.len() implies (#[trigger] t[j]).id@ != s.last().id@ by {
            assert(t[j] == s[j]);
        };
        assert(!entries_model(t).dom().contains(s.last().id@));
        assert(entries_model(s).dom() =~= entries_model(t).dom().insert(s.last().id@));
    }
}

/// An in-memory block store.
///
/// Blocks live in process memory only; this is the physical backend at the
/// bottom of a stack when nothing needs to survive the process. It has no
/// per-block header, so its buffers reserve no prefix slack. There is no
/// storage underneath that could fail, so every operation promises an `Ok`
/// answer: the capability impls strengthen the generic contracts with
/// `r is Ok`, and the inherent [`InMemoryBlockStore::try_create`] and
/// [`InMemoryBlockStore::store`] carry the same promise under the
/// plain-bytes names.
pub struct InMemoryBlockStore {
    entries: Vec<BlockEntry>,
}

impl BlockStoreModel for InMemoryBlockStore {
    closed spec fn blocks(&self) -> Map<Seq<u8>, Seq<u8>> {
        entries_model(self.entries@)
    }

    closed spec fn inv(&self) -> bool {
        wf_entries(self.entries@)
    }

    open spec fn overhead(&self) -> nat {
        0
    }

    open spec fn storable_len(len: nat) -> bool {
        true
    }
}

impl InMemoryBlockStore {
    /// Creates an empty store.
    pub fn new() -> (r: InMemoryBlockStore)
        ensures
            r.inv(),
            r.blocks() == Map::<Seq<u8>, Seq<u8>>::empty(),
            r.overhead() == 0,
    {
        InMemoryBlockStore { entries: Vec::new() }
    }

    /// Index of the entry carrying `id`, if any.
    fn find_index(&self, id: &BlockId) -> (r: Option<usize>)
        ensures
            match r {
                Some(i) => i < self.entries@.len() && self.entries@[i as int].id@ == id@,
                None => forall|i: int|
                    0 <= i < self.entries@.len() ==> (#[trigger] self.entries@[i]).id@ != id@,
            },
    {
        let n = self.entries.len();
        let mut j: usize = 0;
        while j < n
            invariant
                j <= n,
                n == self.entries@.len(),
                forall|i: int| 0 <= i < j ==> (#[trigger] self.entries@[i]).id@ != id@,
            decreases n - j,
        {
            if self.entries[j].id.equals(id) {
                return Some(j);
            }
            j += 1;
        }
        None
    }

    /// Writes `content` under `id`, creating or overwriting the entry.
    fn store_bytes(&mut self, id: &BlockId, content: Vec<u8>) -> (r: Result<(), BlockStoreError>)
        requires
            old(self).inv(),
            id.wf(),
        ensures
            final(self).inv(),
            final(self).blocks() == old(self).blocks().insert(id@, content@),
            r is Ok,
    {
        let ghost s0 = self.entries@;
        match self.find_index(id) {
            Some(i) => {
                let e = BlockEntry { id: id.clone(), content };
                let ghost ge = e;
                self.entries[i] = e;
                proof {
                    lemma_model_update(s0, i as int, ge);
                    assert forall|a: int, b: int| 0 <= a < b < self.entries@.len() implies
                        (#[trigger] self.entries@[a]).id@ != (#[trigger] self.entries@[b]).id@ by {
                        assert(self.entries@[a].id@ == s0[a].id@);
                        assert(self.entries@[b].id@ == s0[b].id@);
                    };
                }
                Ok(())
            },
            None => {
                let e = BlockEntry { id: id.clone(), content };
                let ghost ge = e;
                self.entries.push(e);
                proof {
                    lemma_model_push(s0, ge);
                    assert(self.entries@.drop_last() =~= s0);
                }
                Ok(())
            },
        }
    }

    /// [`crate::store::BlockStoreWriter::try_create`] on this backend, with
    /// success promised: creating a block in memory cannot fail.
    pub fn try_create(&mut self, id: &BlockId, data: &[u8]) -> (r: Result<bool, BlockStoreError>)
        requires
            old(self).inv(),
            id.wf(),
        ensures
            final(self).inv(),
            final(self).overhead() == old(self).overhead(),
            r is Ok,
            if old(self).blocks().dom().contains(id@) {
                r->Ok_0 == false && final(self).blocks() == old(self).blocks()
            } else {
                r->Ok_0 == true && final(self).blocks() == old(self).blocks().insert(id@, data@)
            },
    {
        let mut block_data = <Self as OptimizedBlockStoreWriter>::allocate(data.len());
        block_data.fill_from_slice(data);
        self.try_create_optimized(id, block_data)
    }

    /// [`crate::store::BlockStoreWriter::store`] on this backend, with
    /// success promised: writing a block to memory cannot fail.
    pub fn store(&mut self, id: &BlockId, data: &[u8]) -> (r: Result<(), BlockStoreError>)
        requires
            old(self).inv(),
            id.wf(),
        ensures
            final(self).inv(),
            final(self).overhead() == old(self).overhead(),
            r is Ok,
            final(self).blocks() == old(self).blocks().insert(id@, data@),
    {
        let mut block_data = <Self as OptimizedBlockStoreWriter>::allocate(data.len());
        block_data.fill_from_slice(data);
        self.store_optimized(id, block_data)
    }
}

impl BlockStoreReader for InMemoryBlockStore {
    fn load(&self, id: &BlockId) -> (r: Result<Option<Vec<u8>>, BlockStoreError>)
        ensures
            r is Ok,
    {
        match self.find_index(id) {
            Some(i) => {
                proof {
                    lemma_model_get(self.entries@, i as int);
                }
                let content = copy_bytes(&self.entries[i].content);
                Ok(Some(content))
            },
            None => {
                proof {
                    lemma_model_dom(self.entries@);
                }
                Ok(None)
            },
        }
    }

    fn num_blocks(&self) -> (r: Result<u64, BlockStoreError>)
        ensures
            r is Ok,
    {
        proof {
            lemma_model_card(self.entries@);
        }
        Ok(self.entries.len() as u64)
    }

    fn estimate_num_free_bytes(&self) -> (r: Result<u64, BlockStoreError>)
        ensures
            r is Ok,
    {
        Ok(u64::MAX)
    }

    fn block_size_from_physical_block_size(&self, block_size: u64) -> (r: Result<
        u64,
        BlockStoreError,
    >) {
        Ok(block_size)
    }

    fn all_blocks(&self) -> (r: Result<Vec<BlockId>, BlockStoreError>)
        ensures
            r is Ok,
    {
        let n = self.entries.len();
        let mut ids: Vec<BlockId> = Vec::new();
        let mut j: usize = 0;
        while j < n
            invariant
                j <= n,
                n == self.entries@.len(),
                ids@.len() == j,
                forall|i: int| 0 <= i < j ==> (#[trigger] ids@[i])@ == self.entries@[i].id@,
            decreases n - j,
        {
            let bid = self.entries[j].id.clone();
            ids.push(bid);
            j += 1;
        }
        proof {
            lemma_model_dom(self.entries@);
            assert forall|a: int, b: int|
                0 <= a < ids@.len() && 0 <= b < ids@.len() && a != b implies (#[trigger] id_views(
                ids@,
            )[a]) != (#[trigger] id_views(ids@)[b]) by {
                assert(id_views(ids@)[a] == self.entries@[a].id@);
                assert(id_views(ids@)[b] == self.entries@[b].id@);
            };
            assert forall|k: Seq<u8>| #[trigger] id_views(ids@).to_set().contains(k) implies self
                .blocks().dom().contains(k) by {
                let i = choose|i: int| 0 <= i < id_views(ids@).len() && id_views(ids@)[i] == k;
                assert(self.entries@[i].id@ == k);
            };
            assert forall|k: Seq<u8>| #[trigger] self.blocks().dom().contains(k) implies id_views(
                ids@,
            ).to_set().contains(k) by {
                let i = choose|i: int| 0 <= i < self.entries@.len() && (#[trigger] self
                    .entries@[i]).id@ == k;
                assert(id_views(ids@)[i] == k);
                assert(id_views(ids@).contains(k));
            };
            assert(id_views(ids@).to_set() =~= self.blocks().dom());
        }
        Ok(ids)
    }
}

impl BlockStoreDeleter for InMemoryBlockStore {
    fn remove(&mut self, id: &BlockId) -> (r: Result<bool, BlockStoreError>)
        ensures
            r is Ok,
    {
        let ghost s0 = self.entries@;
        match self.find_index(id) {
            Some(i) => {
                proof {
                    lemma_model_dom(s0);
                    lemma_model_remove(s0, i as int);
                }
                self.entries.remove(i);
                proof {
                    assert forall|a: int, b: int| 0 <= a < b < self.entries@.len() implies
                        (#[trigger] self.entries@[a]).id@ != (#[trigger] self.entries@[b]).id@ by {
                        let ra: int = if a < i { a } else { a + 1 };
                        let rb: int = if b < i { b } else { b + 1 };
                        assert(self.entries@[a] == s0[ra]);
                        assert(self.entries@[b] == s0[rb]);
                    };
                    assert forall|a: int| 0 <= a < self.entries@.len() implies (#[trigger] self
                        .entries@[a]).id.wf() by {
                        let ra: int = if a < i { a } else { a + 1 };
                        assert(self.entries@[a] == s0[ra]);
                    };
                }
                Ok(true)
            },
            None => {
                proof {
                    lemma_model_dom(s0);
                }
                Ok(false)
            },
        }
    }
}

impl OptimizedBlockStoreWriter for InMemoryBlockStore {
    type BlockData = BlockDataWrapper<0>;

    fn allocate(size: usize) -> (r: Self::BlockData) {
        let data = Data::zeroed(0, size);
        <BlockDataWrapper<0> as IBlockData>::new(data)
    }

    fn try_create_optimized(&mut self, id: &BlockId, data: Self::BlockData) -> (r: Result<
        bool,
        BlockStoreError,
    >)
        ensures
            r is Ok,
    {
        let ghost s0 = self.entries@;
        match self.find_index(id) {
            Some(_i) => {
                proof {
                    lemma_model_dom(s0);
                }
                Ok(false)
            },
            None => {
                proof {
                    lemma_model_dom(s0);
                }
                let raw = data.extract();
                let content = raw.into_vec();
                proof {
                    assert(content@ =~= data@);
                }
                match self.store_bytes(id, content) {
                    Ok(()) => Ok(true),
                    Err(e) => Err(e),
                }
            },
        }
    }

    fn store_optimized(&mut self, id: &BlockId, data: Self::BlockData) -> (r: Result<
        (),
        BlockStoreError,
    >)
        ensures
            r is Ok,
    {
        let raw = data.extract();
        let content = raw.into_vec();
        proof {
            assert(content@ =~= data@);
        }
        self.store_bytes(id, content)
    }
}

impl BlockStore for InMemoryBlockStore {

}

} // verus!
