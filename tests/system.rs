use mini_runtime::system::Pallet;

#[test]
fn init_system() {
    let mut system = Pallet::new();
    let alice = &"Alice".to_string();

    assert_eq!(system.block_number(), 0);
    assert_eq!(system.nonce(alice), 0);

    system.inc_block_number();
    system.inc_nonce(alice);

    assert_eq!(system.block_number(), 1);
    assert_eq!(system.nonce(alice), 1);
}

#[test]
fn inc_block_number_returns_new_value() {
    let mut system = Pallet::new();
    assert_eq!(system.inc_block_number(), 1);
    assert_eq!(system.inc_block_number(), 2);
    assert_eq!(system.block_number(), 2);
}

#[test]
fn nonces_are_per_account() {
    let mut system = Pallet::new();
    let alice = &"alice".to_string();
    let bob = &"bob".to_string();
    system.inc_nonce(alice);
    system.inc_nonce(alice);
    system.inc_nonce(bob);
    assert_eq!(system.nonce(alice), 2);
    assert_eq!(system.nonce(bob), 1);
    assert_eq!(system.nonce(&"carol".to_string()), 0);
}

#[test]
fn genesis_init_sets_counters() {
    let system = Pallet::_genesis_init(
        9,
        vec![("alice".to_string(), 3), ("bob".to_string(), 1), ("alice".to_string(), 5)],
    );
    assert_eq!(system.block_number(), 9);
    assert_eq!(system.nonce(&"alice".to_string()), 5);
    assert_eq!(system.nonce(&"bob".to_string()), 1);
    assert_eq!(system.nonce(&"carol".to_string()), 0);
}
