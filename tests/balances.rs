use mini_runtime::balances::Pallet;
use mini_runtime::support::DispatchError;

#[test]
fn init_balances() {
    let mut balances = Pallet::new();

    assert_eq!(balances.balance(&"alice".to_string()), 0);
    balances.set_balance(&"alice".to_string(), 100);
    assert_eq!(balances.balance(&"alice".to_string()), 100);
    assert_eq!(balances.balance(&"bob".to_string()), 0);
}

#[test]
fn transfer_balance() {
    let mut balances = Pallet::new();

    let alice = &"alice".to_string();
    let bob = &"bob".to_string();
    let insufficient_err = Err(DispatchError::InsufficientBalance);

    assert_eq!(balances.transfer(alice, bob, 57), insufficient_err);
    assert_eq!(DispatchError::InsufficientBalance.message(), "Insufficient balance");

    balances.set_balance(alice, 45);

    assert_eq!(balances.balance(bob), 0);

    assert_eq!(balances.transfer(alice, bob, 44), Ok(()));

    assert_eq!(balances.balance(alice), 1);
    assert_eq!(balances.balance(bob), 44);
}

#[test]
fn untouched_account_has_zero_balance() {
    let mut balances = Pallet::new();
    let alice = &"alice".to_string();
    let bob = &"bob".to_string();
    let carol = &"carol".to_string();
    assert_eq!(balances.get_balance(carol), None);
    balances.set_balance(alice, 10);
    assert_eq!(balances.transfer(alice, bob, 4), Ok(()));
    assert_eq!(balances.balance(carol), 0);
    assert_eq!(balances.get_balance(carol), None);
    assert_eq!(balances.get_balance(alice), Some(6));
}

#[test]
fn transfer_conserves_sum() {
    let mut balances = Pallet::new();
    let alice = &"alice".to_string();
    let bob = &"bob".to_string();
    balances.set_balance(alice, 70);
    balances.set_balance(bob, 5);
    assert_eq!(balances.transfer(alice, bob, 25), Ok(()));
    assert_eq!(balances.balance(alice), 45);
    assert_eq!(balances.balance(bob), 30);
    assert_eq!(balances.balance(alice) + balances.balance(bob), 75);
}

#[test]
fn insufficient_transfer_changes_nothing() {
    let mut balances = Pallet::new();
    let alice = &"alice".to_string();
    let bob = &"bob".to_string();
    balances.set_balance(alice, 20);
    balances.set_balance(bob, 3);
    assert_eq!(balances.transfer(alice, bob, 21), Err(DispatchError::InsufficientBalance));
    assert_eq!(balances.balance(alice), 20);
    assert_eq!(balances.balance(bob), 3);
}

#[test]
fn transfer_overflow_changes_nothing() {
    let mut balances = Pallet::new();
    let alice = &"alice".to_string();
    let bob = &"bob".to_string();
    balances.set_balance(alice, 10);
    balances.set_balance(bob, u128::MAX - 5);
    assert_eq!(balances.transfer(alice, bob, 6), Err(DispatchError::Overflow));
    assert_eq!(DispatchError::Overflow.message(), "Overflow");
    assert_eq!(balances.balance(alice), 10);
    assert_eq!(balances.balance(bob), u128::MAX - 5);
    assert_eq!(balances.transfer(alice, bob, 5), Ok(()));
    assert_eq!(balances.balance(alice), 5);
    assert_eq!(balances.balance(bob), u128::MAX);
}

#[test]
fn transfer_to_self_keeps_balance() {
    let mut balances = Pallet::new();
    let alice = &"alice".to_string();
    balances.set_balance(alice, u128::MAX);
    assert_eq!(balances.transfer(alice, alice, 7), Ok(()));
    assert_eq!(balances.balance(alice), u128::MAX);
    assert_eq!(balances.transfer(alice, alice, 0), Ok(()));
    assert_eq!(balances.balance(alice), u128::MAX);
}

#[test]
fn transfer_of_zero_succeeds() {
    let mut balances = Pallet::new();
    let alice = &"alice".to_string();
    let bob = &"bob".to_string();
    assert_eq!(balances.transfer(alice, bob, 0), Ok(()));
    assert_eq!(balances.balance(alice), 0);
    assert_eq!(balances.balance(bob), 0);
}

#[test]
fn new_with_data_later_pair_wins() {
    let balances = Pallet::new_with_data(vec![
        ("alice".to_string(), 100),
        ("bob".to_string(), 7),
        ("alice".to_string(), 40),
    ]);
    assert_eq!(balances.balance(&"alice".to_string()), 40);
    assert_eq!(balances.balance(&"bob".to_string()), 7);
    assert_eq!(balances.balance(&"carol".to_string()), 0);
}
