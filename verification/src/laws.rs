//! Laws of the abstract store model.
//!
//! The capability contracts in [`crate::store`] describe each operation's
//! effect on the abstract contents, a map from block id bytes to payload
//! bytes. The proof functions here state, once for all backends, how those
//! effects compose: what a later `load` observes after a `store`, a
//! `try_create` or a `remove`, how the block count evolves, and what a
//! whole stack of layers answers for a physical block size.

use vstd::prelude::*;

verus! {

/// A block that was never created is not found: the empty store holds
/// nothing, and neither writing nor removing some other block makes `id`
/// appear. With `load`'s contract, an `Ok` answer for such an `id` can
/// only be `None`; on a backend that promises success, such as the
/// in-memory store, the answer therefore is `None`, not an error.
pub proof fn lemma_never_created_not_found(
    blocks: Map<Seq<u8>, Seq<u8>>,
    id: Seq<u8>,
    other: Seq<u8>,
    content: Seq<u8>,
)
    requires
        !blocks.dom().contains(id),
        other != id,
    ensures
        !Map::<Seq<u8>, Seq<u8>>::empty().dom().contains(id),
        !blocks.insert(other, content).dom().contains(id),
        !blocks.remove(other).dom().contains(id),
{
}

/// After a successful write of `content` under `id` — by `store`, a fresh
/// `try_create`, or their optimized forms — the block exists and a `load`
/// of `id` observes exactly `content`, bit for bit, whatever was stored
/// before.
pub proof fn lemma_store_then_load(blocks: Map<Seq<u8>, Seq<u8>>, id: Seq<u8>, content: Seq<u8>)
    ensures
        blocks.insert(id, content).dom().contains(id),
        blocks.insert(id, content)[id] == content,
{
}

/// After a successful `remove` of `id`, a `load` of `id` observes `None`.
pub proof fn lemma_remove_then_load(blocks: Map<Seq<u8>, Seq<u8>>, id: Seq<u8>)
    ensures
        !blocks.remove(id).dom().contains(id),
{
}

/// How the block count evolves: creating a fresh block raises it by one,
/// overwriting an existing one leaves it, removing an existing one lowers
/// it by one, and removing an absent one changes nothing at all.
pub proof fn lemma_block_count(blocks: Map<Seq<u8>, Seq<u8>>, id: Seq<u8>, content: Seq<u8>)
    requires
        blocks.dom().finite(),
    ensures
        !blocks.dom().contains(id) ==> blocks.insert(id, content).dom().len() == blocks.dom().len()
            + 1,
        blocks.dom().contains(id) ==> blocks.insert(id, content).dom().len()
            == blocks.dom().len(),
        blocks.dom().contains(id) ==> blocks.remove(id).dom().len() == blocks.dom().len() - 1,
        !blocks.dom().contains(id) ==> blocks.remove(id) == blocks,
{
    broadcast use vstd::set::group_set_axioms;

    assert(blocks.insert(id, content).dom() =~= blocks.dom().insert(id));
    assert(blocks.remove(id).dom() =~= blocks.dom().remove(id));
    if blocks.dom().contains(id) {
        assert(blocks.dom().insert(id) =~= blocks.dom());
    } else {
        assert(blocks.dom().remove(id) =~= blocks.dom());
        assert(blocks.remove(id) =~= blocks);
    }
}

/// Sum of the per-layer overheads of a stack of layers, outermost first.
pub open spec fn stack_overhead(overheads: Seq<nat>) -> nat
    decreases overheads.len(),
{
    if overheads.len() == 0 {
        0
    } else {
        overheads.first() + stack_overhead(overheads.drop_first())
    }
}

/// The usable block size a stack of layers reports for a physical block
/// size, computed as the contracts prescribe: each layer subtracts its own
/// overhead and delegates the rest inward; a layer whose overhead does not
/// fit reports a configuration error (`None`).
pub open spec fn stack_block_size(physical: int, overheads: Seq<nat>) -> Option<int>
    decreases overheads.len(),
{
    if overheads.len() == 0 {
        Some(physical)
    } else if physical >= overheads.first() {
        stack_block_size(physical - overheads.first(), overheads.drop_first())
    } else {
        None
    }
}

/// Composed overhead law: applied through a full stack of layers,
/// `block_size_from_physical_block_size` yields the physical size minus
/// the sum of all per-layer overheads, and succeeds exactly when that
/// difference is not negative. A layered store's `overhead` is its own
/// plus its inner store's, so the stack's answer matches this computation
/// layer for layer.
pub proof fn lemma_stack_block_size(physical: int, overheads: Seq<nat>)
    requires
        physical >= 0,
    ensures
        stack_block_size(physical, overheads) == if physical >= stack_overhead(overheads) {
            Some(physical - stack_overhead(overheads))
        } else {
            None::<int>
        },
    decreases overheads.len(),
{
    if overheads.len() == 0 {
    } else {
        assert(stack_overhead(overheads) == overheads.first() + stack_overhead(
            overheads.drop_first(),
        ));
        if physical >= overheads.first() {
            lemma_stack_block_size(physical - overheads.first(), overheads.drop_first());
        } else {
            assert(stack_block_size(physical, overheads) is None);
        }
    }
}

} // verus!
