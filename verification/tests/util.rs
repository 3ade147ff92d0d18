use ft_lockup::util::{current_timestamp_sec, nano_to_sec};

#[test]
fn util_test_nano_to_sec() {
    assert_eq!(nano_to_sec(1_719_234_571_328_277_000), 1_719_234_571);
}

#[test]
fn test_nano_to_sec_rounds_down() {
    assert_eq!(nano_to_sec(0), 0);
    assert_eq!(nano_to_sec(999_999_999), 0);
    assert_eq!(nano_to_sec(1_000_000_000), 1);
    assert_eq!(nano_to_sec(u64::MAX), 18_446_744_073);
}

#[test]
fn test_current_timestamp_sec() {
    // env is working on a fresh blockchain starting from time 0
    assert_eq!(current_timestamp_sec(), 0);
}

#[test]
fn test_current_timestamp_sec_follows_the_block() {
    let mut context = near_sdk::test_utils::VMContextBuilder::new();
    context.block_timestamp(1_719_234_571_328_277_000);
    near_sdk::env::set_blockchain_interface(near_sdk::MockedBlockchain::new(
        context.build(),
        near_sdk::test_vm_config(),
        near_sdk::RuntimeFeesConfig::test(),
        vec![],
        Default::default(),
        Default::default(),
        None,
    ));
    assert_eq!(current_timestamp_sec(), 1_719_234_571);
}
