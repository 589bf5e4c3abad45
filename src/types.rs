//! The concrete types that the modules share.

use crate::runtime::RuntimeCall;
use crate::support;
use vstd::prelude::*;

verus! {

/// Identity of an account.
pub type AccountId = String;

/// An amount held by an account.
pub type Balance = u128;

/// Count of the extrinsics that an account has submitted.
pub type Nonce = u32;

/// Number of the next block to execute.
pub type BlockNumber = u32;

/// The content that a claim is made on.
pub type Content = String;

/// A call of the runtime together with its caller.
pub type Extrinsic = support::Extrinsic<AccountId, RuntimeCall>;

/// The header of a block of the runtime.
pub type Header = support::Header<BlockNumber>;

/// A block of the runtime.
pub type Block = support::Block<Header, Extrinsic>;

} // verus!
