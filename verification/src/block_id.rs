//! Fixed-length block identifiers.

use vstd::prelude::*;

verus! {

/// Number of bytes in a [`BlockId`].
pub const BLOCKID_LEN: usize = 16;

/// A fixed-length opaque identifier naming a block.
///
/// Identifiers are immutable once created and are compared by value. The
/// content may be random or content-derived; this layer is agnostic to which.
#[derive(Debug, Eq, Hash)]
pub struct BlockId {
    bytes: Vec<u8>,
}

impl View for BlockId {
    type V = Seq<u8>;

    closed spec fn view(&self) -> Seq<u8> {
        self.bytes@
    }
}

impl BlockId {
    /// A well-formed identifier holds exactly `BLOCKID_LEN` bytes.
    pub open spec fn wf(&self) -> bool {
        self@.len() == BLOCKID_LEN
    }

    /// Builds an identifier from exactly `BLOCKID_LEN` bytes.
    pub fn from_slice(bytes: &[u8]) -> (r: BlockId)
        requires
            bytes@.len() == BLOCKID_LEN,
        ensures
            r@ == bytes@,
            r.wf(),
    {
        BlockId { bytes: vstd::slice::slice_to_vec(bytes) }
    }

    /// The identifier's bytes.
    pub fn as_bytes(&self) -> (r: &[u8])
        ensures
            r@ == self@,
    {
        self.bytes.as_slice()
    }

    /// Value equality on the identifier bytes.
    pub fn equals(&self, other: &BlockId) -> (r: bool)
        ensures
            r == (self@ == other@),
    {
        if self.bytes.len() != other.bytes.len() {
            return false;
        }
        let n = self.bytes.len();
        let mut j: usize = 0;
        while j < n
            invariant
                j <= n,
                n == self@.len(),
                n == other@.len(),
                forall|i: int| 0 <= i < j ==> self@[i] == other@[i],
            decreases n - j,
        {
            if self.bytes[j] != other.bytes[j] {
                return false;
            }
            j += 1;
        }
        proof {
            assert(self@ =~= other@);
        }
        true
    }
}

impl Clone for BlockId {
    /// The copy names the same block: it holds the same bytes.
    fn clone(&self) -> (r: Self)
        ensures
            r@ == self@,
    {
        BlockId { bytes: copy_bytes(&self.bytes) }
    }
}

impl PartialEq for BlockId {
    fn eq(&self, other: &Self) -> (r: bool) {
        self.equals(other)
    }
}

impl vstd::std_specs::cmp::PartialEqSpecImpl for BlockId {
    open spec fn obeys_eq_spec() -> bool {
        true
    }

    open spec fn eq_spec(&self, other: &Self) -> bool {
        self@ == other@
    }
}

/// Copies a byte vector element by element.
pub fn copy_bytes(v: &Vec<u8>) -> (r: Vec<u8>)
    ensures
        r@ == v@,
{
    let mut r: Vec<u8> = Vec::new();
    let n = v.len();
    let mut j: usize = 0;
    while j < n
        invariant
            j <= n,
            n == v@.len(),
            r@ == v@.subrange(0, j as int),
        decreases n - j,
    {
        r.push(v[j]);
        proof {
            assert(r@ =~= v@.subrange(0, j as int + 1));
        }
        j += 1;
    }
    proof {
        assert(r@ =~= v@);
    }
    r
}

} // verus!
