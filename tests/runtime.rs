use mini_runtime::balances;
use mini_runtime::proof_of_existence;
use mini_runtime::runtime::{Runtime, RuntimeCall};
use mini_runtime::support::{Block, Dispatch, DispatchError, Extrinsic, Header};

fn s(text: &str) -> String {
    text.to_string()
}

fn transfer(from: &str, to: &str, amount: u128) -> Extrinsic<String, RuntimeCall> {
    Extrinsic {
        caller: s(from),
        call: RuntimeCall::Balances(balances::Call::Transfer { to: s(to), amount }),
    }
}

fn create(owner: &str, claim: &str) -> Extrinsic<String, RuntimeCall> {
    Extrinsic {
        caller: s(owner),
        call: RuntimeCall::POExistence(proof_of_existence::Call::CreateClaim { claim: s(claim) }),
    }
}

fn revoke(caller: &str, claim: &str) -> Extrinsic<String, RuntimeCall> {
    Extrinsic {
        caller: s(caller),
        call: RuntimeCall::POExistence(proof_of_existence::Call::RevokeClaim { claim: s(claim) }),
    }
}

fn block(number: u32, extrinsics: Vec<Extrinsic<String, RuntimeCall>>) -> Block<Header<u32>, Extrinsic<String, RuntimeCall>> {
    Block { header: Header { block_number: number }, extrinsics }
}

#[test]
fn genesis_is_empty() {
    let runtime = Runtime::new();
    assert_eq!(runtime.system.block_number(), 0);
    assert_eq!(runtime.system.nonce(&s("alice")), 0);
    assert_eq!(runtime.balances.balance(&s("alice")), 0);
    assert_eq!(runtime.pallet_existence.get_claim(&s("doc")), None);
}

#[test]
fn two_transfers_in_one_block() {
    let mut runtime = Runtime::new();
    runtime.balances.set_balance(&s("alice"), 100);
    let b = block(0, vec![transfer("alice", "bob", 30), transfer("alice", "charlie", 20)]);
    assert_eq!(runtime.execute_block(b), Ok(()));
    assert_eq!(runtime.balances.balance(&s("alice")), 50);
    assert_eq!(runtime.balances.balance(&s("bob")), 30);
    assert_eq!(runtime.balances.balance(&s("charlie")), 20);
    assert_eq!(runtime.system.block_number(), 1);
    assert_eq!(runtime.system.nonce(&s("alice")), 2);
}

#[test]
fn wrong_block_number_is_refused() {
    let mut runtime = Runtime::new();
    runtime.balances.set_balance(&s("alice"), 100);
    assert_eq!(runtime.execute_block(block(0, vec![transfer("alice", "bob", 10)])), Ok(()));

    for number in [0u32, 2, 99] {
        let b = block(number, vec![transfer("alice", "bob", 10), create("alice", "doc")]);
        assert_eq!(runtime.execute_block(b), Err(DispatchError::BlockNumberMismatch));
        assert_eq!(runtime.system.block_number(), 1);
        assert_eq!(runtime.system.nonce(&s("alice")), 1);
        assert_eq!(runtime.balances.balance(&s("alice")), 90);
        assert_eq!(runtime.balances.balance(&s("bob")), 10);
        assert_eq!(runtime.pallet_existence.get_claim(&s("doc")), None);
    }
    assert_eq!(DispatchError::BlockNumberMismatch.message(), "Block number mismatch");
}

#[test]
fn failing_extrinsics_still_advance_counters() {
    let mut runtime = Runtime::new();
    let b = block(0, vec![transfer("alice", "bob", 1), revoke("alice", "doc"), transfer("bob", "alice", 5)]);
    assert_eq!(runtime.execute_block(b), Ok(()));
    assert_eq!(runtime.system.block_number(), 1);
    assert_eq!(runtime.system.nonce(&s("alice")), 2);
    assert_eq!(runtime.system.nonce(&s("bob")), 1);
    assert_eq!(runtime.balances.balance(&s("alice")), 0);
    assert_eq!(runtime.balances.balance(&s("bob")), 0);
}

#[test]
fn empty_block_advances_number() {
    let mut runtime = Runtime::new();
    assert_eq!(runtime.execute_block(block(0, vec![])), Ok(()));
    assert_eq!(runtime.execute_block(block(1, vec![])), Ok(()));
    assert_eq!(runtime.system.block_number(), 2);
}

#[test]
fn failure_does_not_undo_earlier_extrinsics() {
    let mut runtime = Runtime::new();
    runtime.balances.set_balance(&s("alice"), 10);
    let b = block(
        0,
        vec![
            transfer("alice", "bob", 6),
            transfer("alice", "carol", 6),
            create("alice", "doc"),
            create("bob", "doc"),
            transfer("bob", "carol", 2),
        ],
    );
    assert_eq!(runtime.execute_block(b), Ok(()));
    assert_eq!(runtime.balances.balance(&s("alice")), 4);
    assert_eq!(runtime.balances.balance(&s("bob")), 4);
    assert_eq!(runtime.balances.balance(&s("carol")), 2);
    assert_eq!(runtime.pallet_existence.get_claim(&s("doc")), Some(&s("alice")));
    assert_eq!(runtime.system.nonce(&s("alice")), 3);
    assert_eq!(runtime.system.nonce(&s("bob")), 2);
}

#[test]
fn claims_across_blocks() {
    let mut runtime = Runtime::new();
    assert_eq!(runtime.execute_block(block(0, vec![create("alice", "claim_01"), create("bob", "claim_02")])), Ok(()));
    assert_eq!(runtime.pallet_existence.get_claim(&s("claim_01")), Some(&s("alice")));
    assert_eq!(runtime.pallet_existence.get_claim(&s("claim_02")), Some(&s("bob")));
    assert_eq!(runtime.execute_block(block(1, vec![revoke("alice", "claim_01"), revoke("bob", "claim_03")])), Ok(()));
    assert_eq!(runtime.pallet_existence.get_claim(&s("claim_01")), None);
    assert_eq!(runtime.pallet_existence.get_claim(&s("claim_02")), Some(&s("bob")));
    assert_eq!(runtime.system.block_number(), 2);
}

#[test]
fn dispatch_routes_to_pallet() {
    let mut runtime = Runtime::new();
    runtime.balances.set_balance(&s("alice"), 8);
    let call = RuntimeCall::Balances(balances::Call::Transfer { to: s("bob"), amount: 3 });
    assert_eq!(runtime.dispatch(s("alice"), call), Ok(()));
    assert_eq!(runtime.balances.balance(&s("bob")), 3);
    let claim = RuntimeCall::POExistence(proof_of_existence::Call::RevokeClaim { claim: s("x") });
    assert_eq!(runtime.dispatch(s("alice"), claim), Err(DispatchError::ClaimNotFound));
    assert_eq!(runtime.system.nonce(&s("alice")), 0);
    assert_eq!(runtime.system.block_number(), 0);
}

#[test]
fn report_lists_failed_extrinsics() {
    let mut runtime = Runtime::new();
    runtime.balances.set_balance(&s("alice"), 5);
    assert_eq!(runtime.execute_block(block(0, vec![])), Ok(()));
    let b = block(
        1,
        vec![
            transfer("alice", "bob", 2),
            transfer("bob", "carol", 9),
            create("carol", "doc"),
            revoke("alice", "doc"),
            revoke("dave", "nothing"),
        ],
    );
    let report = runtime.execute_block_reporting(b).unwrap();
    assert_eq!(report.len(), 3);
    assert_eq!(report[0].index, 1);
    assert_eq!(report[0].caller, s("bob"));
    assert_eq!(report[0].error, DispatchError::InsufficientBalance);
    assert_eq!(report[0].block_number, 1);
    assert_eq!(report[1].index, 3);
    assert_eq!(report[1].caller, s("alice"));
    assert_eq!(report[1].error, DispatchError::NotClaimOwner);
    assert_eq!(report[2].index, 4);
    assert_eq!(report[2].caller, s("dave"));
    assert_eq!(report[2].error, DispatchError::ClaimNotFound);
    assert_eq!(runtime.system.block_number(), 2);
    assert_eq!(runtime.balances.balance(&s("alice")), 3);
    assert_eq!(runtime.balances.balance(&s("bob")), 2);

    let stale = block(1, vec![transfer("alice", "bob", 1)]);
    assert!(matches!(runtime.execute_block_reporting(stale), Err(DispatchError::BlockNumberMismatch)));
    assert_eq!(runtime.balances.balance(&s("alice")), 3);
}

#[test]
fn nonce_bound_is_per_caller() {
    let mut runtime = Runtime::new();
    runtime.system = mini_runtime::system::Pallet::_genesis_init(0, vec![(s("alice"), u32::MAX - 1)]);
    let b = block(0, vec![transfer("alice", "bob", 0), transfer("bob", "alice", 0)]);
    assert_eq!(runtime.execute_block(b), Ok(()));
    assert_eq!(runtime.system.nonce(&s("alice")), u32::MAX);
    assert_eq!(runtime.system.nonce(&s("bob")), 1);
    assert_eq!(runtime.system.block_number(), 1);
}

#[test]
fn refused_block_ignores_high_nonces() {
    let mut runtime = Runtime::new();
    runtime.system = mini_runtime::system::Pallet::_genesis_init(4, vec![(s("alice"), u32::MAX)]);
    let b = block(3, vec![transfer("alice", "bob", 0), transfer("alice", "bob", 0)]);
    assert_eq!(runtime.execute_block(b), Err(DispatchError::BlockNumberMismatch));
    assert_eq!(runtime.system.nonce(&s("alice")), u32::MAX);
    assert_eq!(runtime.system.block_number(), 4);
}

#[test]
fn block_keeps_total_balance() {
    let mut runtime = Runtime::new();
    runtime.balances.set_balance(&s("alice"), 60);
    runtime.balances.set_balance(&s("bob"), 15);
    let b = block(
        0,
        vec![
            transfer("alice", "bob", 25),
            transfer("bob", "carol", 100),
            transfer("bob", "carol", 40),
            transfer("carol", "carol", 10),
        ],
    );
    assert_eq!(runtime.execute_block(b), Ok(()));
    let total: u128 = ["alice", "bob", "carol"].iter().map(|n| runtime.balances.balance(&s(n))).sum();
    assert_eq!(total, 75);
    assert_eq!(runtime.balances.balance(&s("alice")), 35);
    assert_eq!(runtime.balances.balance(&s("bob")), 0);
    assert_eq!(runtime.balances.balance(&s("carol")), 40);
}
