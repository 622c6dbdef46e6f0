//! The pool of fork proofs that wait to be included in a block.
//!
//! The pool holds each proof once, in the order in which the proofs came in.
//! A block that is applied takes its proofs out of the pool; a block that is
//! reverted puts them back.
use vstd::prelude::*;
use crate::block::{Block, ForkProof, ForkProofView, MicroBlock, block_fork_proofs,
    fork_proof_size};

verus! {

/// What each proof of a list holds, in the list's order.
pub open spec fn proof_views(proofs: Seq<ForkProof>) -> Seq<ForkProofView> {
    Seq::new(proofs.len(), |i: int| proofs[i]@)
}

/// The pool after `proof_` came in: it goes to the end unless it is there.
pub open spec fn spec_insert(pool: Seq<ForkProofView>, proof_: ForkProofView) -> Seq<
    ForkProofView,
> {
    if pool.contains(proof_) {
        pool
    } else {
        pool.push(proof_)
    }
}

/// The pool without `proof_`; the other proofs keep their order.
pub open spec fn spec_remove(pool: Seq<ForkProofView>, proof_: ForkProofView) -> Seq<
    ForkProofView,
>
    decreases pool.len(),
{
    if pool.len() == 0 {
        pool
    } else if pool.last() == proof_ {
        spec_remove(pool.drop_last(), proof_)
    } else {
        spec_remove(pool.drop_last(), proof_).push(pool.last())
    }
}

/// The pool after each of `proofs` came in, first to last.
pub open spec fn spec_insert_all(pool: Seq<ForkProofView>, proofs: Seq<ForkProofView>) -> Seq<
    ForkProofView,
>
    decreases proofs.len(),
{
    if proofs.len() == 0 {
        pool
    } else {
        spec_insert(spec_insert_all(pool, proofs.drop_last()), proofs.last())
    }
}

/// The pool after each of `proofs` was taken out, first to last.
pub open spec fn spec_remove_all(pool: Seq<ForkProofView>, proofs: Seq<ForkProofView>) -> Seq<
    ForkProofView,
>
    decreases proofs.len(),
{
    if proofs.len() == 0 {
        pool
    } else {
        spec_remove(spec_remove_all(pool, proofs.drop_last()), proofs.last())
    }
}

/// The pool after the blocks of a chain were applied, first to last. A
/// chain is given by the fork proofs of each of its blocks.
pub open spec fn spec_apply_chain(pool: Seq<ForkProofView>, chain: Seq<Seq<ForkProofView>>) -> Seq<
    ForkProofView,
>
    decreases chain.len(),
{
    if chain.len() == 0 {
        pool
    } else {
        spec_remove_all(spec_apply_chain(pool, chain.drop_last()), chain.last())
    }
}

/// The pool after the blocks of a chain were reverted, last to first.
pub open spec fn spec_revert_chain(pool: Seq<ForkProofView>, chain: Seq<Seq<ForkProofView>>) -> Seq<
    ForkProofView,
>
    decreases chain.len(),
{
    if chain.len() == 0 {
        pool
    } else {
        spec_revert_chain(spec_insert_all(pool, chain.last()), chain.drop_last())
    }
}

/// The pool after a rebranch: the old chain is reverted, then the new chain
/// is applied.
pub open spec fn spec_rebranch(
    pool: Seq<ForkProofView>,
    old_chain: Seq<Seq<ForkProofView>>,
    new_chain: Seq<Seq<ForkProofView>>,
) -> Seq<ForkProofView> {
    spec_apply_chain(spec_revert_chain(pool, old_chain), new_chain)
}

/// The proofs of a list, as a set.
pub open spec fn contents(pool: Seq<ForkProofView>) -> Set<ForkProofView> {
    Set::new(|p: ForkProofView| pool.contains(p))
}

/// The proofs of all blocks of a chain, as a set.
pub open spec fn chain_contents(chain: Seq<Seq<ForkProofView>>) -> Set<ForkProofView> {
    Set::new(
        |p: ForkProofView| exists|i: int| 0 <= i < chain.len() && (#[trigger] chain[i]).contains(p),
    )
}

/// Whether no proof occurs twice.
pub open spec fn distinct(pool: Seq<ForkProofView>) -> bool {
    forall|i: int, j: int| 0 <= i < j < pool.len() ==> pool[i] != pool[j]
}

/// The bytes that the proofs of a list take together.
pub open spec fn total_size(proofs: Seq<ForkProofView>) -> nat
    decreases proofs.len(),
{
    if proofs.len() == 0 {
        0
    } else {
        total_size(proofs.drop_last()) + fork_proof_size(proofs.last())
    }
}

/// Inserting a proof adds it to the contents and keeps the proofs distinct.
pub proof fn lemma_insert(pool: Seq<ForkProofView>, proof_: ForkProofView)
    ensures
        contents(spec_insert(pool, proof_)) == contents(pool).insert(proof_),
        distinct(pool) ==> distinct(spec_insert(pool, proof_)),
{
    let after = spec_insert(pool, proof_);
    assert forall|p: ForkProofView| after.contains(p) <==> (pool.contains(p) || p == proof_) by {
        if pool.contains(p) {
            let k = choose|k: int| 0 <= k < pool.len() && pool[k] == p;
            if !pool.contains(proof_) {
                assert(after[k] == p);
            }
        }
        if p == proof_ && !pool.contains(proof_) {
            assert(after[pool.len() as int] == p);
        }
        if after.contains(p) && !pool.contains(proof_) {
            let k = choose|k: int| 0 <= k < after.len() && after[k] == p;
            if k < pool.len() {
                assert(pool[k] == p);
            }
        }
    }
    assert(contents(after) =~= contents(pool).insert(proof_));
}

/// Removing a proof takes it out of the contents, keeps the proofs distinct
/// and does not lengthen the pool.
pub proof fn lemma_remove(pool: Seq<ForkProofView>, proof_: ForkProofView)
    ensures
        contents(spec_remove(pool, proof_)) == contents(pool).remove(proof_),
        distinct(pool) ==> distinct(spec_remove(pool, proof_)),
        spec_remove(pool, proof_).len() <= pool.len(),
    decreases pool.len(),
{
    let after = spec_remove(pool, proof_);
    if pool.len() > 0 {
        let front = pool.drop_last();
        let last = pool.last();
        lemma_remove(front, proof_);
        let sub = spec_remove(front, proof_);
        assert forall|p: ForkProofView| after.contains(p) <==> (pool.contains(p) && p
            != proof_) by {
            if after.contains(p) {
                let k = choose|k: int| 0 <= k < after.len() && after[k] == p;
                if k < sub.len() {
                    assert(sub[k] == p);
                    assert(contents(sub).contains(p));
                    assert(contents(front).contains(p));
                    let j = choose|j: int| 0 <= j < front.len() && front[j] == p;
                    assert(pool[j] == p);
                } else {
                    assert(p == last);
                    assert(pool[pool.len() - 1] == p);
                }
            }
            if pool.contains(p) && p != proof_ {
                let j = choose|j: int| 0 <= j < pool.len() && pool[j] == p;
                if j < front.len() {
                    assert(front[j] == p);
                    assert(contents(front).remove(proof_).contains(p));
                    assert(contents(sub).contains(p));
                    let k = choose|k: int| 0 <= k < sub.len() && sub[k] == p;
                    assert(after[k] == p);
                } else {
                    assert(after[after.len() - 1] == p);
                }
            }
        }
        assert(contents(after) =~= contents(pool).remove(proof_));
        if distinct(pool) {
            assert(distinct(front)) by {
                assert forall|i: int, j: int| 0 <= i < j < front.len() implies front[i]
                    != front[j] by {
                    assert(pool[i] != pool[j]);
                }
            }
            if last != proof_ {
                assert forall|i: int, j: int| 0 <= i < j < after.len() implies after[i]
                    != after[j] by {
                    if j == sub.len() {
                        assert(contents(sub).contains(sub[i]));
                        assert(contents(front).contains(sub[i]));
                        let k = choose|k: int| 0 <= k < front.len() && front[k] == sub[i];
                        assert(pool[k] != pool[pool.len() - 1]);
                    } else {
                        assert(sub[i] != sub[j]);
                    }
                }
            }
        }
    } else {
        assert(contents(after) =~= contents(pool).remove(proof_));
    }
}

/// Inserting a list of proofs adds all of them to the contents.
pub proof fn lemma_insert_all(pool: Seq<ForkProofView>, proofs: Seq<ForkProofView>)
    ensures
        contents(spec_insert_all(pool, proofs)) == contents(pool).union(contents(proofs)),
        distinct(pool) ==> distinct(spec_insert_all(pool, proofs)),
    decreases proofs.len(),
{
    if proofs.len() > 0 {
        let front = proofs.drop_last();
        lemma_insert_all(pool, front);
        lemma_insert(spec_insert_all(pool, front), proofs.last());
        assert forall|p: ForkProofView| contents(proofs).contains(p) <==> (contents(
            front,
        ).contains(p) || p == proofs.last()) by {
            if front.contains(p) {
                let k = choose|k: int| 0 <= k < front.len() && front[k] == p;
                assert(proofs[k] == p);
            }
            if p == proofs.last() {
                assert(proofs[proofs.len() - 1] == p);
            }
            if proofs.contains(p) {
                let k = choose|k: int| 0 <= k < proofs.len() && proofs[k] == p;
                if k < front.len() {
                    assert(front[k] == p);
                }
            }
        }
        assert(contents(spec_insert_all(pool, proofs)) =~= contents(pool).union(contents(proofs)));
    } else {
        assert(contents(spec_insert_all(pool, proofs)) =~= contents(pool).union(contents(proofs)));
    }
}

/// Removing a list of proofs takes all of them out of the contents.
pub proof fn lemma_remove_all(pool: Seq<ForkProofView>, proofs: Seq<ForkProofView>)
    ensures
        contents(spec_remove_all(pool, proofs)) == contents(pool).difference(contents(proofs)),
        distinct(pool) ==> distinct(spec_remove_all(pool, proofs)),
    decreases proofs.len(),
{
    if proofs.len() > 0 {
        let front = proofs.drop_last();
        lemma_remove_all(pool, front);
        lemma_remove(spec_remove_all(pool, front), proofs.last());
        assert forall|p: ForkProofView| contents(proofs).contains(p) <==> (contents(
            front,
        ).contains(p) || p == proofs.last()) by {
            if front.contains(p) {
                let k = choose|k: int| 0 <= k < front.len() && front[k] == p;
                assert(proofs[k] == p);
            }
            if p == proofs.last() {
                assert(proofs[proofs.len() - 1] == p);
            }
            if proofs.contains(p) {
                let k = choose|k: int| 0 <= k < proofs.len() && proofs[k] == p;
                if k < front.len() {
                    assert(front[k] == p);
                }
            }
        }
        assert(contents(spec_remove_all(pool, proofs)) =~= contents(pool).difference(
            contents(proofs),
        ));
    } else {
        assert(contents(spec_remove_all(pool, proofs)) =~= contents(pool).difference(
            contents(proofs),
        ));
    }
}

/// Applying a chain takes the proofs of all its blocks out of the contents.
pub proof fn lemma_apply_chain(pool: Seq<ForkProofView>, chain: Seq<Seq<ForkProofView>>)
    ensures
        contents(spec_apply_chain(pool, chain)) == contents(pool).difference(
            chain_contents(chain),
        ),
    decreases chain.len(),
{
    if chain.len() > 0 {
        let front = chain.drop_last();
        lemma_apply_chain(pool, front);
        lemma_remove_all(spec_apply_chain(pool, front), chain.last());
        assert forall|p: ForkProofView| chain_contents(chain).contains(p) <==> (chain_contents(
            front,
        ).contains(p) || contents(chain.last()).contains(p)) by {
            if chain_contents(front).contains(p) {
                let k = choose|k: int| 0 <= k < front.len() && (#[trigger] front[k]).contains(p);
                assert(chain[k].contains(p));
            }
            if chain.last().contains(p) {
                assert(chain[chain.len() - 1].contains(p));
            }
            if chain_contents(chain).contains(p) {
                let k = choose|k: int| 0 <= k < chain.len() && (#[trigger] chain[k]).contains(p);
                if k < front.len() {
                    assert(front[k].contains(p));
                }
            }
        }
        assert(contents(spec_apply_chain(pool, chain)) =~= contents(pool).difference(
            chain_contents(chain),
        ));
    } else {
        assert(contents(spec_apply_chain(pool, chain)) =~= contents(pool).difference(
            chain_contents(chain),
        ));
    }
}

/// Reverting a chain puts the proofs of all its blocks into the contents.
pub proof fn lemma_revert_chain(pool: Seq<ForkProofView>, chain: Seq<Seq<ForkProofView>>)
    ensures
        contents(spec_revert_chain(pool, chain)) == contents(pool).union(chain_contents(chain)),
    decreases chain.len(),
{
    if chain.len() > 0 {
        let front = chain.drop_last();
        lemma_insert_all(pool, chain.last());
        lemma_revert_chain(spec_insert_all(pool, chain.last()), front);
        assert forall|p: ForkProofView| chain_contents(chain).contains(p) <==> (chain_contents(
            front,
        ).contains(p) || contents(chain.last()).contains(p)) by {
            if chain_contents(front).contains(p) {
                let k = choose|k: int| 0 <= k < front.len() && (#[trigger] front[k]).contains(p);
                assert(chain[k].contains(p));
            }
            if chain.last().contains(p) {
                assert(chain[chain.len() - 1].contains(p));
            }
            if chain_contents(chain).contains(p) {
                let k = choose|k: int| 0 <= k < chain.len() && (#[trigger] chain[k]).contains(p);
                if k < front.len() {
                    assert(front[k].contains(p));
                }
            }
        }
        assert(contents(spec_revert_chain(pool, chain)) =~= contents(pool).union(
            chain_contents(chain),
        ));
    } else {
        assert(contents(spec_revert_chain(pool, chain)) =~= contents(pool).union(
            chain_contents(chain),
        ));
    }
}

/// Fork-proof symmetry. Let `ancestor` be the pool at the common ancestor of
/// two chains, and let the old chain have been applied to it. Where every
/// fork proof of the old chain was in the pool at the ancestor or is in the
/// new chain as well, the pool after the rebranch holds what it would hold
/// if only the new chain had been applied from the ancestor.
pub proof fn lemma_rebranch_symmetry(
    ancestor: Seq<ForkProofView>,
    old_chain: Seq<Seq<ForkProofView>>,
    new_chain: Seq<Seq<ForkProofView>>,
)
    requires
        forall|p: ForkProofView|
            chain_contents(old_chain).contains(p) ==> contents(ancestor).contains(p)
                || chain_contents(new_chain).contains(p),
    ensures
        contents(spec_rebranch(spec_apply_chain(ancestor, old_chain), old_chain, new_chain))
            == contents(spec_apply_chain(ancestor, new_chain)),
{
    let on_old = spec_apply_chain(ancestor, old_chain);
    lemma_apply_chain(ancestor, old_chain);
    lemma_revert_chain(on_old, old_chain);
    lemma_apply_chain(spec_revert_chain(on_old, old_chain), new_chain);
    lemma_apply_chain(ancestor, new_chain);
    assert(contents(spec_rebranch(on_old, old_chain, new_chain)) =~= contents(
        spec_apply_chain(ancestor, new_chain),
    ));
}

/// A fork proof of the old chain that the new chain does not include is in
/// the pool after the rebranch, whatever the pool held before.
pub proof fn lemma_rebranch_restores(
    pool: Seq<ForkProofView>,
    old_chain: Seq<Seq<ForkProofView>>,
    new_chain: Seq<Seq<ForkProofView>>,
    proof_: ForkProofView,
)
    requires
        chain_contents(old_chain).contains(proof_),
        !chain_contents(new_chain).contains(proof_),
    ensures
        contents(spec_rebranch(pool, old_chain, new_chain)).contains(proof_),
{
    lemma_revert_chain(pool, old_chain);
    lemma_apply_chain(spec_revert_chain(pool, old_chain), new_chain);
}

/// The pool of fork proofs.
pub struct ForkProofPool {
    fork_proofs: Vec<ForkProof>,
}

impl View for ForkProofPool {
    type V = Seq<ForkProofView>;

    closed spec fn view(&self) -> Seq<ForkProofView> {
        proof_views(self.fork_proofs@)
    }
}

impl ForkProofPool {
    /// No proof is in the pool twice.
    #[verifier::type_invariant]
    spec fn each_once(&self) -> bool {
        distinct(proof_views(self.fork_proofs@))
    }

    /// The empty pool.
    pub fn new() -> (pool: ForkProofPool)
        ensures
            pool@ == Seq::<ForkProofView>::empty(),
            distinct(pool@),
    {
        let pool = ForkProofPool { fork_proofs: Vec::new() };
        assert(pool@ =~= Seq::<ForkProofView>::empty());
        pool
    }

    /// The number of proofs in the pool.
    pub fn len(&self) -> (n: usize)
        ensures
            n == self@.len(),
    {
        self.fork_proofs.len()
    }

    /// Whether the pool holds `proof_`.
    pub fn contains(&self, proof_: &ForkProof) -> (found: bool)
        ensures
            found == self@.contains(proof_@),
    {
        let mut i: usize = 0;
        while i < self.fork_proofs.len()
            invariant
                i <= self.fork_proofs.len(),
                forall|j: int| 0 <= j < i ==> self@[j] != proof_@,
            decreases self.fork_proofs.len() - i,
        {
            if self.fork_proofs[i].same(proof_) {
                assert(self@[i as int] == proof_@);
                return true;
            }
            i = i + 1;
        }
        false
    }

    /// Puts `proof_` into the pool, and tells whether it was new.
    pub fn insert(&mut self, proof_: ForkProof) -> (added: bool)
        ensures
            final(self)@ == spec_insert(old(self)@, proof_@),
            added == !old(self)@.contains(proof_@),
            contents(final(self)@) == contents(old(self)@).insert(proof_@),
            distinct(final(self)@),
    {
        proof {
            use_type_invariant(&*self);
            lemma_insert(self@, proof_@);
        }
        if self.contains(&proof_) {
            return false;
        }
        let mut proofs: Vec<ForkProof> = Vec::new();
        core::mem::swap(&mut self.fork_proofs, &mut proofs);
        proofs.push(proof_);
        assert(proof_views(proofs@) =~= old(self)@.push(proof_@));
        self.fork_proofs = proofs;
        true
    }

    /// Takes `proof_` out of the pool.
    pub fn remove(&mut self, proof_: &ForkProof)
        ensures
            final(self)@ == spec_remove(old(self)@, proof_@),
            contents(final(self)@) == contents(old(self)@).remove(proof_@),
            distinct(final(self)@),
    {
        proof {
            use_type_invariant(&*self);
            lemma_remove(self@, proof_@);
        }
        let mut kept: Vec<ForkProof> = Vec::new();
        let mut i: usize = 0;
        assert(proof_views(kept@) =~= spec_remove(old(self)@.take(0), proof_@));
        while i < self.fork_proofs.len()
            invariant
                i <= self.fork_proofs.len(),
                self.fork_proofs == old(self).fork_proofs,
                proof_views(kept@) == spec_remove(old(self)@.take(i as int), proof_@),
            decreases self.fork_proofs.len() - i,
        {
            let ghost seen = old(self)@.take(i as int);
            let ghost next = old(self)@.take(i + 1);
            proof {
                assert(next.drop_last() =~= seen);
                assert(next.last() == self.fork_proofs[i as int]@);
            }
            if !self.fork_proofs[i].same(proof_) {
                kept.push(self.fork_proofs[i].clone());
                assert(proof_views(kept@) =~= spec_remove(seen, proof_@).push(next.last()));
            }
            i = i + 1;
        }
        assert(old(self)@.take(i as int) =~= old(self)@);
        self.fork_proofs = kept;
    }

    /// Applies a block: the fork proofs that it includes leave the pool.
    pub fn apply_block(&mut self, block: &Block)
        ensures
            final(self)@ == spec_remove_all(old(self)@, block_fork_proofs(*block)),
            contents(final(self)@) == contents(old(self)@).difference(
                contents(block_fork_proofs(*block)),
            ),
            distinct(final(self)@),
    {
        proof {
            use_type_invariant(&*self);
            lemma_remove_all(self@, block_fork_proofs(*block));
        }
        match block {
            Block::Micro(MicroBlock { extrinsics: Some(extrinsics), .. }) => {
                let ghost all = block_fork_proofs(*block);
                let mut i: usize = 0;
                while i < extrinsics.fork_proofs.len()
                    invariant
                        i <= extrinsics.fork_proofs.len(),
                        all == proof_views(extrinsics.fork_proofs@),
                        self@ == spec_remove_all(old(self)@, all.take(i as int)),
                    decreases extrinsics.fork_proofs.len() - i,
                {
                    proof {
                        assert(all.take(i + 1).drop_last() =~= all.take(i as int));
                    }
                    self.remove(&extrinsics.fork_proofs[i]);
                    i = i + 1;
                }
                assert(all.take(i as int) =~= all);
            },
            _ => {},
        }
    }

    /// Reverts a block: the fork proofs that it includes come back.
    pub fn revert_block(&mut self, block: &Block)
        ensures
            final(self)@ == spec_insert_all(old(self)@, block_fork_proofs(*block)),
            contents(final(self)@) == contents(old(self)@).union(
                contents(block_fork_proofs(*block)),
            ),
            distinct(final(self)@),
    {
        proof {
            use_type_invariant(&*self);
            lemma_insert_all(self@, block_fork_proofs(*block));
        }
        match block {
            Block::Micro(MicroBlock { extrinsics: Some(extrinsics), .. }) => {
                let ghost all = block_fork_proofs(*block);
                let mut i: usize = 0;
                while i < extrinsics.fork_proofs.len()
                    invariant
                        i <= extrinsics.fork_proofs.len(),
                        all == proof_views(extrinsics.fork_proofs@),
                        self@ == spec_insert_all(old(self)@, all.take(i as int)),
                    decreases extrinsics.fork_proofs.len() - i,
                {
                    proof {
                        assert(all.take(i + 1).drop_last() =~= all.take(i as int));
                    }
                    self.insert(extrinsics.fork_proofs[i].clone());
                    i = i + 1;
                }
                assert(all.take(i as int) =~= all);
            },
            _ => {},
        }
    }

    /// The proofs for the next block: the longest run of proofs from the
    /// front of the pool that takes no more than `max_size` bytes.
    pub fn get_fork_proofs_for_block(&self, max_size: usize) -> (proofs: Vec<ForkProof>)
        ensures
            proofs.len() <= self@.len(),
            proof_views(proofs@) == self@.take(proofs.len() as int),
            total_size(proof_views(proofs@)) <= max_size,
            proofs.len() < self@.len() ==> total_size(self@.take(proofs.len() + 1)) > max_size,
    {
        let mut proofs: Vec<ForkProof> = Vec::new();
        let mut size: usize = 0;
        let mut i: usize = 0;
        let mut full = false;
        assert(proof_views(proofs@) =~= self@.take(0));
        while i < self.fork_proofs.len() && !full
            invariant
                i <= self.fork_proofs.len(),
                proofs.len() == i,
                proof_views(proofs@) == self@.take(i as int),
                size == total_size(self@.take(i as int)),
                size <= max_size,
                full ==> i < self.fork_proofs.len() && total_size(self@.take(i + 1)) > max_size,
            decreases self.fork_proofs.len() - i + if full { 0int } else { 1int },
        {
            proof {
                assert(self@.take(i + 1).drop_last() =~= self@.take(i as int));
                assert(self@.take(i + 1).last() == self.fork_proofs[i as int]@);
            }
            let fits = match self.fork_proofs[i].serialized_size() {
                Some(n) => n <= max_size - size,
                None => false,
            };
            if fits {
                let n = self.fork_proofs[i].serialized_size().unwrap();
                proofs.push(self.fork_proofs[i].clone());
                size = size + n;
                i = i + 1;
                assert(proof_views(proofs@) =~= self@.take(i as int));
            } else {
                full = true;
            }
        }
        proofs
    }
}

} // verus!
