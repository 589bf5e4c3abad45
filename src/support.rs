//! Blocks, extrinsics, the outcome of a dispatched call, and the dispatch interface.

use vstd::prelude::*;

verus! {

/// A block: its header and its extrinsics, in execution order.
pub struct Block<Header, Extrinsic> {
    pub header: Header,
    pub extrinsics: Vec<Extrinsic>,
}

/// The header of a block.
pub struct Header<BlockNumber> {
    pub block_number: BlockNumber,
}

/// A call together with the account that submitted it.
pub struct Extrinsic<Caller, Call> {
    pub caller: Caller,
    pub call: Call,
}

/// Why a block or a call was refused.
#[derive(Debug, Clone, Copy, PartialEq, Eq, Structural)]
pub enum DispatchError {
    BlockNumberMismatch,
    InsufficientBalance,
    Overflow,
    ClaimAlreadyExists,
    ClaimNotFound,
    NotClaimOwner,
}

impl DispatchError {
    /// A short description of the error.
    pub fn message(&self) -> (r: &'static str)
        ensures
            r@ == match self {
                DispatchError::BlockNumberMismatch => "Block number mismatch"@,
                DispatchError::InsufficientBalance => "Insufficient balance"@,
                DispatchError::Overflow => "Overflow"@,
                DispatchError::ClaimAlreadyExists => "Claim already exist"@,
                DispatchError::ClaimNotFound => "Claim not exist"@,
                DispatchError::NotClaimOwner => "this content is owned by someone else"@,
            },
    {
        match self {
            DispatchError::BlockNumberMismatch => "Block number mismatch",
            DispatchError::InsufficientBalance => "Insufficient balance",
            DispatchError::Overflow => "Overflow",
            DispatchError::ClaimAlreadyExists => "Claim already exist",
            DispatchError::ClaimNotFound => "Claim not exist",
            DispatchError::NotClaimOwner => "this content is owned by someone else",
        }
    }
}

/// The outcome of a dispatched call.
pub type DispatchResult = Result<(), DispatchError>;

/// A component that owns some state and executes the calls addressed to it.
pub trait Dispatch: Sized {
    /// Who submits a call.
    type Caller;

    /// The calls that the component executes.
    type Call;

    /// The component's invariant.
    spec fn dispatch_wf(&self) -> bool;

    /// Relates the state before a call, the caller, the call, the state after it and
    /// the outcome.
    spec fn dispatch_spec(
        pre: Self,
        caller: Self::Caller,
        call: Self::Call,
        post: Self,
        r: DispatchResult,
    ) -> bool;

    /// Executes `call` on behalf of `caller`.
    fn dispatch(&mut self, caller: Self::Caller, call: Self::Call) -> (r: DispatchResult)
        requires
            old(self).dispatch_wf(),
        ensures
            final(self).dispatch_wf(),
            Self::dispatch_spec(*old(self), caller, call, *final(self), r),
    ;
}

} // verus!
