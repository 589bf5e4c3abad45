//! The ledger: a balance for each account, and checked transfers between accounts.

use crate::store::KeyedStore;
use crate::support::{Dispatch, DispatchError, DispatchResult};
use crate::types::{AccountId, Balance};
use vstd::prelude::*;

verus! {

/// Relies on num's `CheckedSub` for `u128`, which forwards to `u128::checked_sub`:
/// the difference, or `None` where it would be negative.
#[verifier::external_body]
fn checked_sub_balance(a: Balance, b: Balance) -> (r: Option<Balance>)
    ensures
        r == (if b <= a { Some((a - b) as Balance) } else { None::<Balance> }),
{
    num::CheckedSub::checked_sub(&a, &b)
}

/// Relies on num's `CheckedAdd` for `u128`, which forwards to `u128::checked_add`:
/// the sum, or `None` where it would exceed `u128::MAX`.
#[verifier::external_body]
fn checked_add_balance(a: Balance, b: Balance) -> (r: Option<Balance>)
    ensures
        r == (if a + b <= Balance::MAX { Some((a + b) as Balance) } else { None::<Balance> }),
{
    num::CheckedAdd::checked_add(&a, &b)
}

/// The balance held for `who` in `m`: zero where none is held.
pub open spec fn balance_in(m: Map<Seq<char>, Balance>, who: Seq<char>) -> Balance {
    if m.contains_key(who) {
        m[who]
    } else {
        0
    }
}

/// The balances, in the order in which a list of pairs sets them: a later pair wins.
pub open spec fn balances_of_pairs(s: Seq<(AccountId, Balance)>) -> Map<Seq<char>, Balance>
    decreases s.len(),
{
    if s.len() == 0 {
        Map::empty()
    } else {
        balances_of_pairs(s.drop_last()).insert(s.last().0@, s.last().1)
    }
}

/// Outcome of moving `amount` from `from` to `to` on balances `m`, and the balances after it.
pub open spec fn transfer_spec(
    m: Map<Seq<char>, Balance>,
    from: Seq<char>,
    to: Seq<char>,
    amount: Balance,
) -> (DispatchResult, Map<Seq<char>, Balance>) {
    let from_balance = balance_in(m, from);
    let to_balance = balance_in(m, to);
    if amount > from_balance {
        (Err(DispatchError::InsufficientBalance), m)
    } else if from == to {
        (Ok(()), m)
    } else if to_balance + amount > Balance::MAX {
        (Err(DispatchError::Overflow), m)
    } else {
        (
            Ok(()),
            m.insert(from, (from_balance - amount) as Balance).insert(
                to,
                (to_balance + amount) as Balance,
            ),
        )
    }
}

/// The sum of the balances held in `m`.
pub open spec fn total_balance(m: Map<Seq<char>, Balance>) -> int
    decreases m.dom().len(),
    when m.dom().finite()
{
    if m.dom().len() == 0 {
        0
    } else {
        let k = m.dom().choose();
        m[k] + total_balance(m.remove(k))
    }
}

/// The total is the balance of any one account held plus the total of the others.
pub proof fn lemma_total_balance_remove(m: Map<Seq<char>, Balance>, k: Seq<char>)
    requires
        m.dom().finite(),
        m.dom().contains(k),
    ensures
        total_balance(m) == m[k] + total_balance(m.remove(k)),
    decreases m.dom().len(),
{
    let j = m.dom().choose();
    if j != k {
        lemma_total_balance_remove(m.remove(j), k);
        lemma_total_balance_remove(m.remove(k), j);
        assert(m.remove(j).remove(k) =~= m.remove(k).remove(j));
    }
}

/// Setting the balance of `k` to `v` changes the total by the difference.
pub proof fn lemma_total_balance_insert(m: Map<Seq<char>, Balance>, k: Seq<char>, v: Balance)
    requires
        m.dom().finite(),
    ensures
        total_balance(m.insert(k, v)) == total_balance(m) - balance_in(m, k) + v,
{
    let m1 = m.insert(k, v);
    lemma_total_balance_remove(m1, k);
    assert(m1.remove(k) =~= m.remove(k));
    if m.dom().contains(k) {
        lemma_total_balance_remove(m, k);
    } else {
        assert(m.remove(k) =~= m);
    }
}

/// A transfer, whatever its outcome, keeps the sum of all balances.
pub proof fn lemma_transfer_keeps_total(
    m: Map<Seq<char>, Balance>,
    from: Seq<char>,
    to: Seq<char>,
    amount: Balance,
)
    requires
        m.dom().finite(),
    ensures
        transfer_spec(m, from, to, amount).1.dom().finite(),
        total_balance(transfer_spec(m, from, to, amount).1) == total_balance(m),
{
    let from_balance = balance_in(m, from);
    let to_balance = balance_in(m, to);
    if amount <= from_balance && from != to && to_balance + amount <= Balance::MAX {
        let m1 = m.insert(from, (from_balance - amount) as Balance);
        lemma_total_balance_insert(m, from, (from_balance - amount) as Balance);
        assert(balance_in(m1, to) == to_balance);
        lemma_total_balance_insert(m1, to, (to_balance + amount) as Balance);
    }
}

/// A transfer neither from nor to `who` keeps the balance of `who`.
pub proof fn lemma_transfer_keeps_others(
    m: Map<Seq<char>, Balance>,
    from: Seq<char>,
    to: Seq<char>,
    amount: Balance,
    who: Seq<char>,
)
    requires
        who != from,
        who != to,
    ensures
        balance_in(transfer_spec(m, from, to, amount).1, who) == balance_in(m, who),
{
}

/// A transfer between two accounts, with enough on the sender's side and room on the
/// receiver's, succeeds: the sender loses `amount`, the receiver gains it, and their sum
/// is unchanged.
pub proof fn lemma_transfer_moves_amount(
    m: Map<Seq<char>, Balance>,
    from: Seq<char>,
    to: Seq<char>,
    amount: Balance,
)
    requires
        from != to,
        amount <= balance_in(m, from),
        balance_in(m, to) + amount <= Balance::MAX,
    ensures
        transfer_spec(m, from, to, amount).0 == Ok::<(), DispatchError>(()),
        balance_in(transfer_spec(m, from, to, amount).1, from) == balance_in(m, from) - amount,
        balance_in(transfer_spec(m, from, to, amount).1, to) == balance_in(m, to) + amount,
        balance_in(transfer_spec(m, from, to, amount).1, from) + balance_in(
            transfer_spec(m, from, to, amount).1,
            to,
        ) == balance_in(m, from) + balance_in(m, to),
{
}

/// A transfer of more than the sender holds fails with `InsufficientBalance` and changes
/// no balance.
pub proof fn lemma_transfer_insufficient(
    m: Map<Seq<char>, Balance>,
    from: Seq<char>,
    to: Seq<char>,
    amount: Balance,
)
    requires
        amount > balance_in(m, from),
    ensures
        transfer_spec(m, from, to, amount).0 == Err::<(), DispatchError>(
            DispatchError::InsufficientBalance,
        ),
        transfer_spec(m, from, to, amount).1 == m,
{
}

/// The balance of each account.
pub struct Pallet {
    balances: KeyedStore<Balance>,
}

impl Pallet {
    /// The pallet's invariant.
    pub closed spec fn wf(&self) -> bool {
        self.balances.wf()
    }

    /// The balances held, by account.
    pub closed spec fn balances(&self) -> Map<Seq<char>, Balance> {
        self.balances@
    }

    /// The pallet holds balances for finitely many accounts.
    pub proof fn lemma_finite(&self)
        ensures
            self.balances().dom().finite(),
    {
        self.balances.lemma_finite();
    }

    /// The balance of `who`.
    pub open spec fn balance_of(&self, who: Seq<char>) -> Balance {
        balance_in(self.balances(), who)
    }

    /// No balance held.
    pub fn new() -> (r: Self)
        ensures
            r.wf(),
            r.balances() == Map::<Seq<char>, Balance>::empty(),
    {
        Pallet { balances: KeyedStore::new() }
    }

    /// The balances that `data` sets, a later pair over an earlier one.
    pub fn new_with_data(data: Vec<(AccountId, Balance)>) -> (r: Self)
        ensures
            r.wf(),
            r.balances() == balances_of_pairs(data@),
    {
        let mut balances = KeyedStore::new();
        let mut i: usize = 0;
        while i < data.len()
            invariant
                i <= data@.len(),
                balances.wf(),
                balances@ == balances_of_pairs(data@.subrange(0, i as int)),
            decreases data@.len() - i,
        {
            let who = data[i].0.clone();
            balances.insert(who, data[i].1);
            proof {
                assert(data@.subrange(0, i + 1).drop_last() =~= data@.subrange(0, i as int));
            }
            i += 1;
        }
        assert(data@.subrange(0, data@.len() as int) =~= data@);
        Pallet { balances }
    }

    /// The balance held for `who`, if one was ever set.
    pub fn get_balance(&self, who: &AccountId) -> (r: Option<Balance>)
        requires
            self.wf(),
        ensures
            r == (if self.balances().contains_key(who@) {
                Some(self.balances()[who@])
            } else {
                None::<Balance>
            }),
    {
        match self.balances.get(who) {
            Some(b) => Some(*b),
            None => None,
        }
    }

    /// Sets the balance of `who` to `amount`.
    pub fn set_balance(&mut self, who: &AccountId, amount: Balance)
        requires
            old(self).wf(),
        ensures
            final(self).wf(),
            final(self).balances() == old(self).balances().insert(who@, amount),
    {
        self.balances.insert(who.clone(), amount);
    }

    /// The balance of `who`: zero where none was set.
    pub fn balance(&self, who: &AccountId) -> (r: Balance)
        requires
            self.wf(),
        ensures
            r == self.balance_of(who@),
    {
        match self.balances.get(who) {
            Some(b) => *b,
            None => 0,
        }
    }

    /// Moves `amount` from `from` to `to`; on failure no balance changes.
    pub fn transfer(&mut self, from: &AccountId, to: &AccountId, amount: Balance) -> (r:
        DispatchResult)
        requires
            old(self).wf(),
        ensures
            final(self).wf(),
            (r, final(self).balances()) == transfer_spec(old(self).balances(), from@, to@, amount),
    {
        let from_balance = self.balance(from);
        let updated_from = match checked_sub_balance(from_balance, amount) {
            Some(b) => b,
            None => return Err(DispatchError::InsufficientBalance),
        };
        if *from == *to {
            return Ok(());
        }
        let to_balance = self.balance(to);
        let updated_to = match checked_add_balance(to_balance, amount) {
            Some(b) => b,
            None => return Err(DispatchError::Overflow),
        };
        self.set_balance(from, updated_from);
        self.set_balance(to, updated_to);
        Ok(())
    }
}

/// The calls that the ledger executes.
pub enum Call {
    /// Move `amount` from the caller to `to`.
    Transfer { to: AccountId, amount: Balance },
}

impl Dispatch for Pallet {
    type Caller = AccountId;

    type Call = Call;

    open spec fn dispatch_wf(&self) -> bool {
        self.wf()
    }

    open spec fn dispatch_spec(
        pre: Self,
        caller: AccountId,
        call: Call,
        post: Self,
        r: DispatchResult,
    ) -> bool {
        match call {
            Call::Transfer { to, amount } => (r, post.balances()) == transfer_spec(
                pre.balances(),
                caller@,
                to@,
                amount,
            ),
        }
    }

    fn dispatch(&mut self, caller: AccountId, call: Call) -> (r: DispatchResult) {
        match call {
            Call::Transfer { to, amount } => self.transfer(&caller, &to, amount),
        }
    }
}

} // verus!
