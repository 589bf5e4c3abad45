//! The runtime: the three pallets, the union of their calls, and block execution.

use crate::balances;
use crate::proof_of_existence;
use crate::support::{Dispatch, DispatchError, DispatchResult};
use crate::system;
use crate::system::nonce_in;
use crate::types::{AccountId, Balance, Block, BlockNumber, Extrinsic, Nonce};
use vstd::prelude::*;

verus! {

/// A call addressed to one of the runtime's pallets.
pub enum RuntimeCall {
    Balances(balances::Call),
    POExistence(proof_of_existence::Call),
}

/// The state of the runtime as the contracts speak of it.
pub struct ChainState {
    pub block_number: BlockNumber,
    pub nonces: Map<Seq<char>, Nonce>,
    pub balances: Map<Seq<char>, Balance>,
    pub claims: Map<Seq<char>, AccountId>,
}

/// Outcome of dispatching `call` from `caller` on state `s`, and the state after it.
pub open spec fn dispatch_spec(s: ChainState, caller: AccountId, call: RuntimeCall) -> (
    DispatchResult,
    ChainState,
) {
    match call {
        RuntimeCall::Balances(balances::Call::Transfer { to, amount }) => {
            let (r, m) = balances::transfer_spec(s.balances, caller@, to@, amount);
            (r, ChainState { balances: m, ..s })
        },
        RuntimeCall::POExistence(proof_of_existence::Call::CreateClaim { claim }) => {
            let (r, m) = proof_of_existence::create_claim_spec(s.claims, caller, claim@);
            (r, ChainState { claims: m, ..s })
        },
        RuntimeCall::POExistence(proof_of_existence::Call::RevokeClaim { claim }) => {
            let (r, m) = proof_of_existence::revoke_claim_spec(s.claims, caller@, claim@);
            (r, ChainState { claims: m, ..s })
        },
    }
}

/// State `s` with the nonce of `who` advanced by one.
pub open spec fn bump_nonce(s: ChainState, who: Seq<char>) -> ChainState {
    ChainState { nonces: s.nonces.insert(who, (nonce_in(s.nonces, who) + 1) as Nonce), ..s }
}

/// The state after submitting extrinsic `e` on `s`: the caller's nonce advances, whatever
/// the call's outcome.
pub open spec fn submit_spec(s: ChainState, e: Extrinsic) -> ChainState {
    dispatch_spec(bump_nonce(s, e.caller@), e.caller, e.call).1
}

/// The state after submitting the extrinsics `exts` in order on `s`.
pub open spec fn apply_extrinsics(s: ChainState, exts: Seq<Extrinsic>) -> ChainState
    decreases exts.len(),
{
    if exts.len() == 0 {
        s
    } else {
        submit_spec(apply_extrinsics(s, exts.drop_last()), exts.last())
    }
}

/// The failed calls among `exts` when submitted in order on `s`: the index of each, with
/// its error.
pub open spec fn failures_of(s: ChainState, exts: Seq<Extrinsic>) -> Seq<(int, DispatchError)>
    decreases exts.len(),
{
    if exts.len() == 0 {
        Seq::empty()
    } else {
        let e = exts.last();
        let t = apply_extrinsics(s, exts.drop_last());
        let prev = failures_of(s, exts.drop_last());
        match dispatch_spec(bump_nonce(t, e.caller@), e.caller, e.call).0 {
            Ok(_) => prev,
            Err(err) => prev.push((exts.len() - 1, err)),
        }
    }
}

/// `report` lists, in order, the failed calls of `block` when executed on `s`.
pub open spec fn reports_failures(s: ChainState, block: Block, report: Seq<ExtrinsicFailure>) -> bool {
    let f = failures_of(s, block.extrinsics@);
    &&& report.len() == f.len()
    &&& forall|i: int|
        0 <= i < report.len() ==> {
            &&& (#[trigger] report[i]).index == f[i].0
            &&& report[i].error == f[i].1
            &&& report[i].block_number == block.header.block_number
            &&& report[i].caller@ == block.extrinsics@[f[i].0].caller@
        }
}

/// A call of a block that failed: where it stood, who submitted it, and why it failed.
pub struct ExtrinsicFailure {
    pub block_number: BlockNumber,
    pub index: usize,
    pub caller: AccountId,
    pub error: DispatchError,
}

/// Outcome of executing `block` on `s`, and the state after it.
pub open spec fn execute_block_spec(s: ChainState, block: Block) -> (DispatchResult, ChainState) {
    if block.header.block_number != s.block_number {
        (Err(DispatchError::BlockNumberMismatch), s)
    } else {
        let t = apply_extrinsics(s, block.extrinsics@);
        (Ok(()), ChainState { block_number: (t.block_number + 1) as BlockNumber, ..t })
    }
}

/// Where `block` is accepted on `s`, every counter that it advances has room: the block
/// number by one, and the nonce of each account by the number of extrinsics it submitted.
pub open spec fn counters_fit(s: ChainState, block: Block) -> bool {
    block.header.block_number == s.block_number ==> {
        &&& s.block_number < BlockNumber::MAX
        &&& forall|a: Seq<char>|
            #[trigger] nonce_in(s.nonces, a) + submitted_by(block.extrinsics@, a) <= Nonce::MAX
    }
}

/// Dispatching never changes the block number or the nonces.
pub proof fn lemma_dispatch_keeps_counters(s: ChainState, caller: AccountId, call: RuntimeCall)
    ensures
        dispatch_spec(s, caller, call).1.block_number == s.block_number,
        dispatch_spec(s, caller, call).1.nonces == s.nonces,
{
}

/// The number of extrinsics in `exts` that `who` submitted.
pub open spec fn submitted_by(exts: Seq<Extrinsic>, who: Seq<char>) -> nat
    decreases exts.len(),
{
    if exts.len() == 0 {
        0
    } else {
        submitted_by(exts.drop_last(), who) + if exts.last().caller@ == who {
            1nat
        } else {
            0nat
        }
    }
}

/// A prefix of `exts` holds no more extrinsics of `who` than `exts` does.
pub proof fn lemma_submitted_by_prefix(exts: Seq<Extrinsic>, i: int, who: Seq<char>)
    requires
        0 <= i <= exts.len(),
    ensures
        submitted_by(exts.subrange(0, i), who) <= submitted_by(exts, who),
    decreases exts.len(),
{
    if i == exts.len() {
        assert(exts.subrange(0, i) =~= exts);
    } else {
        assert(exts.drop_last().subrange(0, i) =~= exts.subrange(0, i));
        lemma_submitted_by_prefix(exts.drop_last(), i, who);
    }
}

/// Extrinsic `e` is a transfer from or to `who`.
pub open spec fn touches_balance(e: Extrinsic, who: Seq<char>) -> bool {
    match e.call {
        RuntimeCall::Balances(balances::Call::Transfer { to, .. }) => e.caller@ == who || to@ == who,
        RuntimeCall::POExistence(_) => false,
    }
}

/// Submitting extrinsics never changes the block number.
pub proof fn lemma_extrinsics_keep_block_number(s: ChainState, exts: Seq<Extrinsic>)
    ensures
        apply_extrinsics(s, exts).block_number == s.block_number,
    decreases exts.len(),
{
    if exts.len() > 0 {
        lemma_extrinsics_keep_block_number(s, exts.drop_last());
    }
}

/// The nonce of `who` grows by exactly one for each extrinsic that `who` submitted, whatever
/// the outcome of its call.
pub proof fn lemma_nonce_counts_submissions(s: ChainState, exts: Seq<Extrinsic>, who: Seq<char>)
    requires
        nonce_in(s.nonces, who) + submitted_by(exts, who) <= Nonce::MAX,
    ensures
        nonce_in(apply_extrinsics(s, exts).nonces, who) == nonce_in(s.nonces, who)
            + submitted_by(exts, who),
    decreases exts.len(),
{
    if exts.len() > 0 {
        let e = exts.last();
        lemma_nonce_counts_submissions(s, exts.drop_last(), who);
        let t = apply_extrinsics(s, exts.drop_last());
        lemma_dispatch_keeps_counters(bump_nonce(t, e.caller@), e.caller, e.call);
    }
}

/// An account that no transfer in `exts` sends from or to keeps its balance; from
/// genesis, where no balance is held, that balance is zero.
pub proof fn lemma_untouched_balance_kept(s: ChainState, exts: Seq<Extrinsic>, who: Seq<char>)
    requires
        forall|i: int| 0 <= i < exts.len() ==> !touches_balance(#[trigger] exts[i], who),
    ensures
        balances::balance_in(apply_extrinsics(s, exts).balances, who) == balances::balance_in(
            s.balances,
            who,
        ),
        s.balances == Map::<Seq<char>, Balance>::empty() ==> balances::balance_in(
            apply_extrinsics(s, exts).balances,
            who,
        ) == 0,
    decreases exts.len(),
{
    if exts.len() > 0 {
        let e = exts.last();
        assert(!touches_balance(exts[exts.len() - 1], who));
        assert forall|i: int| 0 <= i < exts.drop_last().len() implies !touches_balance(
            #[trigger] exts.drop_last()[i],
            who,
        ) by {
            assert(exts.drop_last()[i] == exts[i]);
        }
        lemma_untouched_balance_kept(s, exts.drop_last(), who);
    }
}

/// A dispatched call, whatever its outcome, keeps the sum of all balances.
pub proof fn lemma_dispatch_keeps_total(s: ChainState, caller: AccountId, call: RuntimeCall)
    requires
        s.balances.dom().finite(),
    ensures
        dispatch_spec(s, caller, call).1.balances.dom().finite(),
        balances::total_balance(dispatch_spec(s, caller, call).1.balances)
            == balances::total_balance(s.balances),
{
    match call {
        RuntimeCall::Balances(balances::Call::Transfer { to, amount }) => {
            balances::lemma_transfer_keeps_total(s.balances, caller@, to@, amount);
        },
        RuntimeCall::POExistence(_) => {},
    }
}

/// Submitting extrinsics keeps the sum of all balances.
pub proof fn lemma_extrinsics_keep_total(s: ChainState, exts: Seq<Extrinsic>)
    requires
        s.balances.dom().finite(),
    ensures
        apply_extrinsics(s, exts).balances.dom().finite(),
        balances::total_balance(apply_extrinsics(s, exts).balances) == balances::total_balance(
            s.balances,
        ),
    decreases exts.len(),
{
    if exts.len() > 0 {
        let e = exts.last();
        lemma_extrinsics_keep_total(s, exts.drop_last());
        let t = apply_extrinsics(s, exts.drop_last());
        lemma_dispatch_keeps_total(bump_nonce(t, e.caller@), e.caller, e.call);
    }
}

/// Executing a block, accepted or not, keeps the sum of all balances.
pub proof fn lemma_block_keeps_total(s: ChainState, block: Block)
    requires
        s.balances.dom().finite(),
    ensures
        execute_block_spec(s, block).1.balances.dom().finite(),
        balances::total_balance(execute_block_spec(s, block).1.balances)
            == balances::total_balance(s.balances),
{
    lemma_extrinsics_keep_total(s, block.extrinsics@);
}

/// A block whose number is not the current block number is refused with
/// `BlockNumberMismatch`, and the state is left exactly as it was.
pub proof fn lemma_wrong_block_number_refused(s: ChainState, block: Block)
    requires
        block.header.block_number != s.block_number,
    ensures
        execute_block_spec(s, block).0 == Err::<(), DispatchError>(
            DispatchError::BlockNumberMismatch,
        ),
        execute_block_spec(s, block).1 == s,
{
}

/// A block with the current block number advances the block number by exactly one,
/// whatever the outcomes of its calls.
pub proof fn lemma_block_advances_number(s: ChainState, block: Block)
    requires
        block.header.block_number == s.block_number,
        s.block_number < BlockNumber::MAX,
    ensures
        execute_block_spec(s, block).0 == Ok::<(), DispatchError>(()),
        execute_block_spec(s, block).1.block_number == s.block_number + 1,
{
    lemma_extrinsics_keep_block_number(s, block.extrinsics@);
}

/// The runtime: system bookkeeping, the ledger and the claims registry.
pub struct Runtime {
    pub system: system::Pallet,
    pub balances: balances::Pallet,
    pub pallet_existence: proof_of_existence::Pallet,
}

impl View for Runtime {
    type V = ChainState;

    open spec fn view(&self) -> ChainState {
        ChainState {
            block_number: self.system.current_block(),
            nonces: self.system.nonces(),
            balances: self.balances.balances(),
            claims: self.pallet_existence.claims(),
        }
    }
}

impl Runtime {
    /// The invariants of the three pallets.
    pub open spec fn wf(&self) -> bool {
        &&& self.system.wf()
        &&& self.balances.wf()
        &&& self.pallet_existence.wf()
        &&& self@.balances.dom().finite()
    }

    /// The genesis state: block zero, and no nonce, balance or claim held.
    pub fn new() -> (r: Self)
        ensures
            r.wf(),
            r@ == (ChainState {
                block_number: 0,
                nonces: Map::empty(),
                balances: Map::empty(),
                claims: Map::empty(),
            }),
    {
        Runtime {
            system: system::Pallet::new(),
            balances: balances::Pallet::new(),
            pallet_existence: proof_of_existence::Pallet::new(),
        }
    }

    /// Executes `block`: where its number is the current block number, submits each
    /// extrinsic in order and then advances the block number; else refuses the block
    /// and changes nothing. A failing call does not stop the block.
    pub fn execute_block(&mut self, block: Block) -> (r: DispatchResult)
        requires
            old(self).wf(),
            counters_fit(old(self)@, block),
        ensures
            final(self).wf(),
            (r, final(self)@) == execute_block_spec(old(self)@, block),
    {
        match self.execute_block_reporting(block) {
            Ok(_) => Ok(()),
            Err(e) => Err(e),
        }
    }

    /// Executes `block` as `execute_block` does, and returns the calls of it that failed.
    pub fn execute_block_reporting(&mut self, block: Block) -> (r: Result<
        Vec<ExtrinsicFailure>,
        DispatchError,
    >)
        requires
            old(self).wf(),
            counters_fit(old(self)@, block),
        ensures
            final(self).wf(),
            final(self)@ == execute_block_spec(old(self)@, block).1,
            match r {
                Ok(report) => execute_block_spec(old(self)@, block).0 == Ok::<(), DispatchError>(())
                    && reports_failures(old(self)@, block, report@),
                Err(e) => execute_block_spec(old(self)@, block).0 == Err::<(), DispatchError>(e),
            },
    {
        let block_number = block.header.block_number;
        if block_number != self.system.block_number() {
            return Err(DispatchError::BlockNumberMismatch);
        }
        let ghost s0 = self@;
        let ghost exts = block.extrinsics@;
        let mut rest = block.extrinsics;
        let mut report: Vec<ExtrinsicFailure> = Vec::new();
        let n = rest.len();
        let mut i: usize = 0;
        while i < n
            invariant
                self.wf(),
                i <= n,
                n == exts.len(),
                rest@ == exts.subrange(i as int, n as int),
                self@ == apply_extrinsics(s0, exts.subrange(0, i as int)),
                self@.block_number == s0.block_number,
                block_number == s0.block_number,
                forall|a: Seq<char>|
                    #[trigger] nonce_in(s0.nonces, a) + submitted_by(exts, a) <= Nonce::MAX,
                report@.len() == failures_of(s0, exts.subrange(0, i as int)).len(),
                forall|j: int|
                    0 <= j < report@.len() ==> {
                        let f = failures_of(s0, exts.subrange(0, i as int));
                        &&& 0 <= f[j].0 < i
                        &&& (#[trigger] report@[j]).index == f[j].0
                        &&& report@[j].error == f[j].1
                        &&& report@[j].block_number == block_number
                        &&& report@[j].caller@ == exts[f[j].0].caller@
                    },
            decreases n - i,
        {
            let ghost before = self@;
            let ghost report_before = report@;
            let e = rest.remove(0);
            assert(e == exts[i as int]);
            let Extrinsic { caller, call } = e;
            proof {
                let prefix = exts.subrange(0, i + 1);
                assert(prefix.drop_last() =~= exts.subrange(0, i as int));
                lemma_submitted_by_prefix(exts, i + 1, caller@);
                assert(nonce_in(s0.nonces, caller@) + submitted_by(exts, caller@) <= Nonce::MAX);
                lemma_nonce_counts_submissions(s0, exts.subrange(0, i as int), caller@);
            }
            self.system.inc_nonce(&caller);
            assert(self@ == bump_nonce(before, caller@));
            assert(self.wf());
            let who = caller.clone();
            let outcome = self.dispatch(caller, call);
            if let Err(error) = outcome {
                report.push(ExtrinsicFailure { block_number, index: i, caller: who, error });
            }
            proof {
                lemma_dispatch_keeps_counters(bump_nonce(before, e.caller@), e.caller, e.call);
                let prefix = exts.subrange(0, i + 1);
                assert(prefix.drop_last() =~= exts.subrange(0, i as int));
                assert(prefix.last() == e);
                let f = failures_of(s0, prefix);
                let f0 = failures_of(s0, exts.subrange(0, i as int));
                assert forall|j: int| 0 <= j < report@.len() implies {
                    &&& 0 <= f[j].0 < i + 1
                    &&& (#[trigger] report@[j]).index == f[j].0
                    &&& report@[j].error == f[j].1
                    &&& report@[j].block_number == block_number
                    &&& report@[j].caller@ == exts[f[j].0].caller@
                } by {
                    if j < report_before.len() {
                        assert(report@[j] == report_before[j]);
                        assert(f[j] == f0[j]);
                    }
                }
            }
            i += 1;
        }
        assert(exts.subrange(0, n as int) =~= exts);
        self.system.inc_block_number();
        proof {
            self.balances.lemma_finite();
        }
        Ok(report)
    }
}

impl Dispatch for Runtime {
    type Caller = AccountId;

    type Call = RuntimeCall;

    open spec fn dispatch_wf(&self) -> bool {
        self.wf()
    }

    open spec fn dispatch_spec(
        pre: Self,
        caller: AccountId,
        call: RuntimeCall,
        post: Self,
        r: DispatchResult,
    ) -> bool {
        (r, post@) == dispatch_spec(pre@, caller, call)
    }

    /// Hands the call, with its caller, to the pallet that it is addressed to.
    fn dispatch(&mut self, caller: AccountId, runtime_call: RuntimeCall) -> (r: DispatchResult) {
        let r = match runtime_call {
            RuntimeCall::Balances(call) => self.balances.dispatch(caller, call),
            RuntimeCall::POExistence(call) => self.pallet_existence.dispatch(caller, call),
        };
        proof {
            self.balances.lemma_finite();
        }
        r
    }
}

} // verus!
