//! The block counter and the nonce of each account.

use crate::store::KeyedStore;
use crate::types::{AccountId, BlockNumber, Nonce};
use vstd::prelude::*;

verus! {

/// The nonce held for `who` in `m`: zero where none is held.
pub open spec fn nonce_in(m: Map<Seq<char>, Nonce>, who: Seq<char>) -> Nonce {
    if m.contains_key(who) {
        m[who]
    } else {
        0
    }
}

/// The nonces, in the order in which a list of pairs sets them: a later pair wins.
pub open spec fn nonces_of_pairs(s: Seq<(AccountId, Nonce)>) -> Map<Seq<char>, Nonce>
    decreases s.len(),
{
    if s.len() == 0 {
        Map::empty()
    } else {
        nonces_of_pairs(s.drop_last()).insert(s.last().0@, s.last().1)
    }
}

/// The block counter and the per-account nonces.
pub struct Pallet {
    block_number: BlockNumber,
    nonce: KeyedStore<Nonce>,
}

impl Pallet {
    /// The pallet's invariant.
    pub closed spec fn wf(&self) -> bool {
        self.nonce.wf()
    }

    /// The current block number.
    pub closed spec fn current_block(&self) -> BlockNumber {
        self.block_number
    }

    /// The nonces held, by account.
    pub closed spec fn nonces(&self) -> Map<Seq<char>, Nonce> {
        self.nonce@
    }

    /// The nonce of `who`.
    pub open spec fn nonce_of(&self, who: Seq<char>) -> Nonce {
        nonce_in(self.nonces(), who)
    }

    /// Block zero, and no nonce held.
    pub fn new() -> (r: Self)
        ensures
            r.wf(),
            r.current_block() == 0,
            r.nonces() == Map::<Seq<char>, Nonce>::empty(),
    {
        Pallet { block_number: 0, nonce: KeyedStore::new() }
    }

    /// Block `b_num`, and the nonces that `nonce_data` sets, a later pair over an earlier one.
    pub fn _genesis_init(b_num: BlockNumber, nonce_data: Vec<(AccountId, Nonce)>) -> (r: Self)
        ensures
            r.wf(),
            r.current_block() == b_num,
            r.nonces() == nonces_of_pairs(nonce_data@),
    {
        let mut nonce = KeyedStore::new();
        let mut i: usize = 0;
        while i < nonce_data.len()
            invariant
                i <= nonce_data@.len(),
                nonce.wf(),
                nonce@ == nonces_of_pairs(nonce_data@.subrange(0, i as int)),
            decreases nonce_data@.len() - i,
        {
            let who = nonce_data[i].0.clone();
            nonce.insert(who, nonce_data[i].1);
            proof {
                assert(nonce_data@.subrange(0, i + 1).drop_last() =~= nonce_data@.subrange(0, i as int));
            }
            i += 1;
        }
        assert(nonce_data@.subrange(0, nonce_data@.len() as int) =~= nonce_data@);
        Pallet { block_number: b_num, nonce }
    }

    /// The current block number.
    pub fn block_number(&self) -> (r: BlockNumber)
        ensures
            r == self.current_block(),
    {
        self.block_number
    }

    /// Advances the block number by one and returns the new value.
    pub fn inc_block_number(&mut self) -> (r: BlockNumber)
        requires
            old(self).current_block() < BlockNumber::MAX,
        ensures
            final(self).wf() == old(self).wf(),
            final(self).current_block() == old(self).current_block() + 1,
            r == final(self).current_block(),
            final(self).nonces() == old(self).nonces(),
    {
        self.block_number = self.block_number + 1;
        self.block_number
    }

    /// The nonce of `who`: zero where none is held.
    pub fn nonce(&self, who: &AccountId) -> (r: Nonce)
        requires
            self.wf(),
        ensures
            r == self.nonce_of(who@),
    {
        match self.nonce.get(who) {
            Some(n) => *n,
            None => 0,
        }
    }

    /// Advances the nonce of `who` by one.
    pub fn inc_nonce(&mut self, who: &AccountId)
        requires
            old(self).wf(),
            old(self).nonce_of(who@) < Nonce::MAX,
        ensures
            final(self).wf(),
            final(self).nonces() == old(self).nonces().insert(who@, (old(self).nonce_of(who@) + 1) as Nonce),
            final(self).current_block() == old(self).current_block(),
    {
        let current = self.nonce(who);
        self.nonce.insert(who.clone(), current + 1);
    }
}

} // verus!
