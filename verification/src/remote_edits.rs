//! Edits that a shared session's other side made to the input buffer of a
//! block that is not the input's block yet. They wait, per block and in
//! arrival order, until that block becomes the latest one.
use std::collections::HashMap;

use vstd::prelude::*;

use crate::execution::BlockId;

verus! {

broadcast use vstd::std_specs::hash::group_hash_axioms;

/// The operations waiting for each block, keyed by the block's number.
pub type PendingOps<Op> = Map<u64, Seq<Op>>;

/// `m` after `ops` arrive for `block`: they follow those already waiting.
pub open spec fn spec_defer<Op>(m: PendingOps<Op>, block: u64, ops: Seq<Op>) -> PendingOps<Op> {
    m.insert(block, waiting_for(m, block) + ops)
}

/// What waits for `block` (nothing when it has no entry).
pub open spec fn waiting_for<Op>(m: PendingOps<Op>, block: u64) -> Seq<Op> {
    if m.contains_key(block) {
        m[block]
    } else {
        Seq::empty()
    }
}

/// Remote buffer operations deferred because their block was not the
/// latest one when they arrived.
pub struct DeferredRemoteOperations<Op> {
    /// The latest block, whose operations apply at once.
    latest_block_id: BlockId,
    deferred_ops: HashMap<u64, Vec<Op>>,
}

impl<Op> DeferredRemoteOperations<Op> {
    pub closed spec fn latest(&self) -> BlockId {
        self.latest_block_id
    }

    /// The operations waiting for each block.
    pub closed spec fn pending(&self) -> PendingOps<Op> {
        self.deferred_ops@.map_values(|v: Vec<Op>| v@)
    }

    /// Nothing deferred yet.
    pub fn new(latest_block_id: BlockId) -> (res: Self)
        ensures
            res.latest() == latest_block_id,
            res.pending() == Map::<u64, Seq<Op>>::empty(),
    {
        let res = DeferredRemoteOperations { latest_block_id, deferred_ops: HashMap::new() };
        proof {
            assert(res.pending() =~= Map::<u64, Seq<Op>>::empty());
        }
        res
    }

    pub fn latest_block_id(&self) -> (res: BlockId)
        ensures
            res == self.latest(),
    {
        self.latest_block_id
    }

    /// Makes `block_id` the latest block; what waits stays.
    pub fn set_latest_block_id(&mut self, block_id: BlockId)
        ensures
            final(self).latest() == block_id,
            final(self).pending() == old(self).pending(),
    {
        self.latest_block_id = block_id;
    }

    /// Defers `operations` for `block_id`, after those already waiting.
    pub fn defer(&mut self, block_id: BlockId, operations: Vec<Op>)
        ensures
            final(self).latest() == old(self).latest(),
            final(self).pending() == spec_defer(old(self).pending(), block_id.0, operations@),
    {
        let ghost before = self.pending();
        let key = block_id.0;
        let mut waiting = match self.deferred_ops.remove(&key) {
            Some(v) => v,
            None => Vec::new(),
        };
        let ghost prefix = waiting@;
        proof {
            assert(prefix == waiting_for(before, key));
        }
        let ghost incoming = operations@;
        let mut operations = operations;
        waiting.append(&mut operations);
        self.deferred_ops.insert(key, waiting);
        proof {
            assert(self.pending() =~= spec_defer(before, key, incoming));
        }
    }

    /// Removes and returns what waits for the latest block, if anything.
    pub fn flush(&mut self) -> (res: Option<Vec<Op>>)
        ensures
            final(self).latest() == old(self).latest(),
            final(self).pending() == old(self).pending().remove(old(self).latest().0),
            match res {
                Some(ops) => old(self).pending().contains_key(old(self).latest().0) && ops@
                    == old(self).pending()[old(self).latest().0],
                None => !old(self).pending().contains_key(old(self).latest().0),
            },
    {
        let ghost before = self.pending();
        let res = self.deferred_ops.remove(&self.latest_block_id.0);
        proof {
            assert(self.pending() =~= before.remove(self.latest_block_id.0));
        }
        res
    }

    /// Takes in operations made in `block_id`'s buffer: those of the latest
    /// block are handed back to be applied now; the others wait.
    pub fn route(&mut self, block_id: BlockId, operations: Vec<Op>) -> (res: Option<Vec<Op>>)
        ensures
            final(self).latest() == old(self).latest(),
            block_id == old(self).latest() ==> res == Some(operations) && final(self).pending()
                == old(self).pending(),
            block_id != old(self).latest() ==> res is None && final(self).pending()
                == spec_defer(old(self).pending(), block_id.0, operations@),
    {
        if block_id == self.latest_block_id {
            Some(operations)
        } else {
            self.defer(block_id, operations);
            None
        }
    }
}

/// Deferred operations come back together, in the order they arrived: two
/// batches deferred for one block are what a flush of that block returns,
/// first batch first, and deferring for another block leaves them be.
pub proof fn lemma_deferred_operations_keep_arrival_order<Op>(
    m: PendingOps<Op>,
    block: u64,
    other: u64,
    first: Seq<Op>,
    second: Seq<Op>,
    unrelated: Seq<Op>,
)
    requires
        !m.contains_key(block),
        other != block,
    ensures
        ({
            let after = spec_defer(spec_defer(spec_defer(m, block, first), other, unrelated), block, second);
            &&& after.contains_key(block)
            &&& after[block] == first + second
            &&& waiting_for(after.remove(block), block) == Seq::<Op>::empty()
            &&& after.remove(block).remove(other) == m.remove(other)
        }),
{
    let a = spec_defer(m, block, first);
    let b = spec_defer(a, other, unrelated);
    let c = spec_defer(b, block, second);
    assert(waiting_for(m, block) =~= Seq::<Op>::empty());
    assert(a[block] =~= first);
    assert(b[block] == first);
    assert(c[block] =~= first + second);
    assert(c.remove(block).remove(other) =~= m.remove(other));
}

} // verus!
