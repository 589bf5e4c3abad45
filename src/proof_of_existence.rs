//! The claims registry: each content has at most one owner, who alone may revoke it.

use crate::store::KeyedStore;
use crate::support::{Dispatch, DispatchError, DispatchResult};
use crate::types::{AccountId, Content};
use vstd::prelude::*;

verus! {

/// Outcome of `owner` claiming `claim` on claims `m`, and the claims after it.
pub open spec fn create_claim_spec(
    m: Map<Seq<char>, AccountId>,
    owner: AccountId,
    claim: Seq<char>,
) -> (DispatchResult, Map<Seq<char>, AccountId>) {
    if m.contains_key(claim) {
        (Err(DispatchError::ClaimAlreadyExists), m)
    } else {
        (Ok(()), m.insert(claim, owner))
    }
}

/// Outcome of `caller` revoking `claim` on claims `m`, and the claims after it.
pub open spec fn revoke_claim_spec(
    m: Map<Seq<char>, AccountId>,
    caller: Seq<char>,
    claim: Seq<char>,
) -> (DispatchResult, Map<Seq<char>, AccountId>) {
    if !m.contains_key(claim) {
        (Err(DispatchError::ClaimNotFound), m)
    } else if m[claim]@ != caller {
        (Err(DispatchError::NotClaimOwner), m)
    } else {
        (Ok(()), m.remove(claim))
    }
}

/// Claiming unclaimed content succeeds and makes the claimant its owner; a second claim
/// on it, by anyone, then fails with `ClaimAlreadyExists` and keeps that owner.
pub proof fn lemma_first_claim_wins(
    m: Map<Seq<char>, AccountId>,
    owner: AccountId,
    other: AccountId,
    claim: Seq<char>,
)
    requires
        !m.contains_key(claim),
    ensures
        create_claim_spec(m, owner, claim).0 == Ok::<(), DispatchError>(()),
        create_claim_spec(m, owner, claim).1.contains_key(claim),
        create_claim_spec(m, owner, claim).1[claim] == owner,
        create_claim_spec(create_claim_spec(m, owner, claim).1, other, claim).0 == Err::<
            (),
            DispatchError,
        >(DispatchError::ClaimAlreadyExists),
        create_claim_spec(create_claim_spec(m, owner, claim).1, other, claim).1
            == create_claim_spec(m, owner, claim).1,
{
}

/// Revoking a claim that someone else owns fails with `NotClaimOwner`, and revoking
/// unclaimed content fails with `ClaimNotFound`; neither changes the claims.
pub proof fn lemma_revoke_refused(m: Map<Seq<char>, AccountId>, caller: Seq<char>, claim: Seq<char>)
    ensures
        m.contains_key(claim) && m[claim]@ != caller ==> revoke_claim_spec(m, caller, claim).0
            == Err::<(), DispatchError>(DispatchError::NotClaimOwner),
        !m.contains_key(claim) ==> revoke_claim_spec(m, caller, claim).0 == Err::<
            (),
            DispatchError,
        >(DispatchError::ClaimNotFound),
        !(m.contains_key(claim) && m[claim]@ == caller) ==> revoke_claim_spec(m, caller, claim).1
            == m,
{
}

/// The owner of each claimed content.
pub struct Pallet {
    content: KeyedStore<AccountId>,
}

impl Pallet {
    /// The pallet's invariant.
    pub closed spec fn wf(&self) -> bool {
        self.content.wf()
    }

    /// The owner of each claimed content, by content.
    pub closed spec fn claims(&self) -> Map<Seq<char>, AccountId> {
        self.content@
    }

    /// No content claimed.
    pub fn new() -> (r: Self)
        ensures
            r.wf(),
            r.claims() == Map::<Seq<char>, AccountId>::empty(),
    {
        Pallet { content: KeyedStore::new() }
    }

    /// The owner of `claim`, if it is claimed.
    pub fn get_claim(&self, claim: &Content) -> (r: Option<&AccountId>)
        requires
            self.wf(),
        ensures
            match r {
                Some(owner) => self.claims().contains_key(claim@) && *owner == self.claims()[claim@],
                None => !self.claims().contains_key(claim@),
            },
    {
        self.content.get(claim)
    }

    /// Makes `owner` the owner of `claim`, unless someone owns it already.
    pub fn create_claim(&mut self, owner: AccountId, claim: Content) -> (r: DispatchResult)
        requires
            old(self).wf(),
        ensures
            final(self).wf(),
            (r, final(self).claims()) == create_claim_spec(old(self).claims(), owner, claim@),
    {
        if self.content.contains_key(&claim) {
            return Err(DispatchError::ClaimAlreadyExists);
        }
        self.content.insert(claim, owner);
        Ok(())
    }

    /// Drops the claim on `claim`, where `caller` owns it.
    pub fn revoke_claim(&mut self, caller: AccountId, claim: Content) -> (r: DispatchResult)
        requires
            old(self).wf(),
        ensures
            final(self).wf(),
            (r, final(self).claims()) == revoke_claim_spec(old(self).claims(), caller@, claim@),
    {
        let owned_by_caller = match self.get_claim(&claim) {
            Some(owner) => *owner == caller,
            None => return Err(DispatchError::ClaimNotFound),
        };
        if !owned_by_caller {
            return Err(DispatchError::NotClaimOwner);
        }
        self.content.remove(&claim);
        Ok(())
    }
}

/// The calls that the claims registry executes.
pub enum Call {
    /// Claim `claim` for the caller.
    CreateClaim { claim: Content },
    /// Give up the caller's claim on `claim`.
    RevokeClaim { claim: Content },
}

impl Dispatch for Pallet {
    type Caller = AccountId;

    type Call = Call;

    open spec fn dispatch_wf(&self) -> bool {
        self.wf()
    }

    open spec fn dispatch_spec(
        pre: Self,
        caller: AccountId,
        call: Call,
        post: Self,
        r: DispatchResult,
    ) -> bool {
        match call {
            Call::CreateClaim { claim } => (r, post.claims()) == create_claim_spec(
                pre.claims(),
                caller,
                claim@,
            ),
            Call::RevokeClaim { claim } => (r, post.claims()) == revoke_claim_spec(
                pre.claims(),
                caller@,
                claim@,
            ),
        }
    }

    fn dispatch(&mut self, caller: AccountId, call: Call) -> (r: DispatchResult) {
        match call {
            Call::CreateClaim { claim } => self.create_claim(caller, claim),
            Call::RevokeClaim { claim } => self.revoke_claim(caller, claim),
        }
    }
}

} // verus!
