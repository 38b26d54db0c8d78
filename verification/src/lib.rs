//! Core abstraction of a layered block-storage stack.
//!
//! A block store is a uniform key-to-bytes store: fixed-length [`BlockId`]
//! keys name byte-buffer blocks. The capability traits in [`store`] describe
//! the read, write and delete operations every backend must expose, together
//! with an optimized write path that lets a backend prepend a fixed-size
//! header to block data without copying the payload. The buffer types in
//! [`data`] and [`block_data`] enforce the reserved-prefix invariant that
//! makes that zero-copy path sound, [`inmemory`] provides a concrete
//! in-memory backend, and [`headered`] a layered backend that frames each
//! block with a fixed tag. The proof functions in [`laws`] state once, for
//! all backends, how the operations' effects on the abstract contents
//! compose.

pub mod block_data;
pub mod block_id;
pub mod data;
pub mod headered;
pub mod inmemory;
pub mod laws;
pub mod store;

pub use block_data::{BlockDataWrapper, IBlockData};
pub use block_id::{BlockId, BLOCKID_LEN};
pub use data::Data;
pub use headered::{HeaderedBlockStore, HEADER_LEN};
pub use inmemory::InMemoryBlockStore;
pub use store::{
    BlockStore, BlockStoreDeleter, BlockStoreError, BlockStoreModel, BlockStoreReader,
    BlockStoreWriter, OptimizedBlockStoreWriter,
};
