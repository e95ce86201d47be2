use game_tokens::account::is_owner;
use ink::primitives::AccountId;

#[test]
fn owner_is_the_named_account_only() {
    let a = AccountId::from([1u8; 32]);
    let mut bytes = [1u8; 32];
    bytes[31] = 2;
    let b = AccountId::from(bytes);
    assert!(is_owner(&Some(a), &a));
    assert!(!is_owner(&Some(a), &b));
    assert!(!is_owner(&Some(b), &a));
    assert!(!is_owner(&None, &a));
}
