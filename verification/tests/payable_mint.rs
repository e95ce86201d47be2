use std::collections::HashMap;

use game_tokens::payable_mint::{
    bonus_for, AttributeWrite, Collection, Internal, PayableMintImpl, Payout,
};
use game_tokens::types::{CollectionError, Data, MintOrder, NFTError};
use ink::primitives::AccountId;

fn account(n: u8) -> AccountId {
    AccountId::from([n; 32])
}

fn custom(e: NFTError) -> CollectionError {
    CollectionError::Custom(e)
}

/// A token core as the collection expects one: a token can be minted once.
struct Core {
    owners: HashMap<u64, AccountId>,
}

impl Core {
    fn new() -> Core {
        Core { owners: HashMap::new() }
    }

    fn mint_to(&mut self, to: AccountId, id: u64) -> bool {
        if self.owners.contains_key(&id) {
            return false;
        }
        self.owners.insert(id, to);
        true
    }

    fn owner_of(&self, id: u64) -> Option<AccountId> {
        self.owners.get(&id).copied()
    }

    /// Mints every token of `order`, stopping at the first refusal.
    fn run(&mut self, order: &MintOrder) -> bool {
        let mut k = 0;
        while let Some(id) = order.id(k) {
            if !self.mint_to(order.to, id) {
                return false;
            }
            k += 1;
        }
        true
    }
}

/// One whole `mint`: the request, the core's work, the settlement.
fn mint(
    c: &mut Collection,
    core: &mut Core,
    value: u128,
    to: AccountId,
    amount: u64,
) -> Result<(), CollectionError> {
    let order = c.mint(to, amount, value)?;
    let minted = core.run(&order);
    c.settle_mint(&order, minted)?;
    assert!(minted);
    Ok(())
}

#[test]
fn new_collection_is_empty() {
    let c = Collection::new(25, 1, 20);
    assert_eq!(
        c.data,
        Data { last_token_id: 0, collection_id: 0, max_supply: 25, price_per_mint: 1, max_amount: 20 }
    );
    assert!(!c.entered);
    assert_eq!(c.issued, 0);
    assert_eq!(c.max_supply(), 25);
    assert_eq!(c.price(), 1);
    let mut c = c;
    assert_eq!(c.get_max_mint_amount(), 20);
    assert_eq!(c, Collection::new(25, 1, 20));
}

#[test]
fn check_amount_gives_each_error() {
    let mut c = Collection::new(100, 5, 20);
    c.data.last_token_id = 90;
    assert_eq!(c.check_amount(0), Err(custom(NFTError::CannotMintZeroTokens)));
    assert_eq!(c.check_amount(21), Err(custom(NFTError::TooManyTokensToMint)));
    assert_eq!(c.check_amount(11), Err(custom(NFTError::CollectionIsFull)));
    assert_eq!(c.check_amount(10), Ok(()));
    assert_eq!(c.check_amount(1), Ok(()));
}

#[test]
fn check_amount_asks_the_cap_before_the_supply() {
    let mut c = Collection::new(10, 5, 3);
    c.data.last_token_id = 9;
    // over the cap and over the supply: the cap speaks
    assert_eq!(c.check_amount(4), Err(custom(NFTError::TooManyTokensToMint)));
    assert_eq!(c.check_amount(2), Err(custom(NFTError::CollectionIsFull)));
    assert_eq!(c.check_amount(1), Ok(()));
}

#[test]
fn check_amount_survives_counter_overflow() {
    let mut c = Collection::new(u64::MAX, 1, u64::MAX);
    c.data.last_token_id = u64::MAX - 1;
    assert_eq!(c.check_amount(1), Ok(()));
    assert_eq!(c.check_amount(2), Err(custom(NFTError::CollectionIsFull)));
    assert_eq!(c.check_amount(u64::MAX), Err(custom(NFTError::CollectionIsFull)));
}

#[test]
fn check_value_wants_the_exact_price() {
    let c = Collection::new(100, 7, 20);
    assert_eq!(c.check_value(21, 3), Ok(()));
    assert_eq!(c.check_value(20, 3), Err(custom(NFTError::BadMintValue)));
    assert_eq!(c.check_value(22, 3), Err(custom(NFTError::BadMintValue)));
    assert_eq!(c.check_value(0, 3), Err(custom(NFTError::BadMintValue)));
    assert_eq!(c.check_value(0, 0), Ok(()));
}

#[test]
fn check_value_refuses_a_price_beyond_the_balance_type() {
    let c = Collection::new(100, u128::MAX, 20);
    assert_eq!(c.check_value(u128::MAX, 1), Ok(()));
    assert_eq!(c.check_value(u128::MAX, 2), Err(custom(NFTError::BadMintValue)));
    // the product wraps to this value; it is still not the price
    assert_eq!(c.check_value(u128::MAX - 1, 2), Err(custom(NFTError::BadMintValue)));
}

#[test]
fn token_exists_follows_the_core() {
    let c = Collection::new(100, 7, 20);
    assert_eq!(c.token_exists(Some(account(1))), Ok(()));
    assert_eq!(c.token_exists(None), Err(CollectionError::TokenNotExists));
}

#[test]
fn bonus_is_one_for_ten_and_three_for_twenty() {
    assert_eq!(bonus_for(10), 1);
    assert_eq!(bonus_for(20), 3);
    for amount in [0u64, 1, 7, 9, 11, 19, 21, 30, u64::MAX] {
        assert_eq!(bonus_for(amount), 0);
    }
}

#[test]
fn mint_of_ten_allocates_eleven() {
    let mut c = Collection::new(1000, 2, 20);
    let mut core = Core::new();
    let order = c.mint(account(1), 10, 20).unwrap();
    assert_eq!(order, MintOrder { to: account(1), first_id: 1, count: 11 });
    assert!(core.run(&order));
    assert_eq!(c.settle_mint(&order, true), Ok(()));
    assert_eq!(c.data.last_token_id, 11);
    assert_eq!(core.owners.len(), 11);
    for id in 1..=11 {
        assert_eq!(core.owner_of(id), Some(account(1)));
    }
    assert_eq!(core.owner_of(12), None);
}

#[test]
fn mint_of_twenty_allocates_twenty_three() {
    let mut c = Collection::new(1000, 2, 20);
    let mut core = Core::new();
    c.data.last_token_id = 5;
    let order = c.mint(account(2), 20, 40).unwrap();
    assert_eq!(order, MintOrder { to: account(2), first_id: 6, count: 23 });
    assert!(core.run(&order));
    assert_eq!(c.settle_mint(&order, true), Ok(()));
    assert_eq!(c.data.last_token_id, 28);
    assert_eq!(core.owners.len(), 23);
}

#[test]
fn mint_of_seven_allocates_seven() {
    let mut c = Collection::new(1000, 2, 20);
    let mut core = Core::new();
    assert_eq!(mint(&mut c, &mut core, 14, account(3), 7), Ok(()));
    assert_eq!(c.data.last_token_id, 7);
    assert_eq!(core.owners.len(), 7);
    assert!(!c.entered);
}

#[test]
fn mint_checks_amount_then_value() {
    let mut c = Collection::new(100, 3, 20);
    let before = c;
    assert_eq!(c.mint(account(1), 0, 0), Err(custom(NFTError::CannotMintZeroTokens)));
    assert_eq!(c.mint(account(1), 21, 63), Err(custom(NFTError::TooManyTokensToMint)));
    assert_eq!(c.mint(account(1), 5, 14), Err(custom(NFTError::BadMintValue)));
    assert_eq!(c.mint(account(1), 5, 16), Err(custom(NFTError::BadMintValue)));
    // a wrong amount and a wrong payment: the amount speaks
    assert_eq!(c.mint(account(1), 21, 1), Err(custom(NFTError::TooManyTokensToMint)));
    assert_eq!(c, before);
}

#[test]
fn full_collection_refuses_and_keeps_its_state() {
    let mut c = Collection::new(25, 1, 20);
    c.data.last_token_id = 23;
    let before = c;
    assert_eq!(c.mint(account(1), 5, 5), Err(custom(NFTError::CollectionIsFull)));
    assert_eq!(c.mint(account(1), 3, 3), Err(custom(NFTError::CollectionIsFull)));
    // whatever is paid
    assert_eq!(c.mint(account(1), 3, 0), Err(custom(NFTError::CollectionIsFull)));
    assert_eq!(c, before);
    assert!(c.mint(account(1), 2, 2).is_ok());
}

#[test]
fn scenario_twenty_then_five() {
    let a = account(7);
    let mut c = Collection::new(25, 1, 20);
    let mut core = Core::new();
    assert_eq!(mint(&mut c, &mut core, 20, a, 20), Ok(()));
    assert_eq!(c.data.last_token_id, 23);
    let before = c;
    let tokens = core.owners.len();
    assert_eq!(mint(&mut c, &mut core, 5, a, 5), Err(custom(NFTError::CollectionIsFull)));
    assert_eq!(c, before);
    assert_eq!(core.owners.len(), tokens);
}

#[test]
fn bonus_is_held_against_the_supply() {
    let mut c = Collection::new(22, 1, 20);
    let mut core = Core::new();
    let before = c;
    // the twenty fit, their three bonus tokens do not
    assert_eq!(mint(&mut c, &mut core, 20, account(1), 20), Err(custom(NFTError::CollectionIsFull)));
    assert_eq!(c, before);
    assert_eq!(c.data.last_token_id, 0);
    for id in 1..=23 {
        assert_eq!(core.owner_of(id), None);
    }
    // one bonus token over the ceiling
    let mut c = Collection::new(10, 1, 20);
    assert_eq!(c.mint(account(1), 10, 10), Err(custom(NFTError::CollectionIsFull)));
    assert_eq!(c.mint(account(1), 9, 9), Ok(MintOrder { to: account(1), first_id: 1, count: 9 }));
}

#[test]
fn bonus_fits_exactly_under_the_supply() {
    let mut c = Collection::new(23, 1, 20);
    let mut core = Core::new();
    assert_eq!(mint(&mut c, &mut core, 20, account(1), 20), Ok(()));
    assert_eq!(c.data.last_token_id, 23);
    let mut c = Collection::new(11, 1, 20);
    let mut core = Core::new();
    assert_eq!(mint(&mut c, &mut core, 10, account(2), 10), Ok(()));
    assert_eq!(c.data.last_token_id, 11);
}

#[test]
fn supply_is_asked_before_the_payment() {
    let mut c = Collection::new(22, 1, 20);
    assert_eq!(c.mint(account(1), 20, 19), Err(custom(NFTError::CollectionIsFull)));
    assert_eq!(c.mint(account(1), 19, 18), Err(custom(NFTError::BadMintValue)));
}

#[test]
fn second_mint_is_refused_until_the_first_is_settled() {
    let mut c = Collection::new(100, 1, 20);
    let order = c.mint(account(1), 3, 3).unwrap();
    assert!(c.entered);
    assert_eq!(c.data.last_token_id, 0);
    assert_eq!(c.mint(account(2), 3, 3), Err(CollectionError::ReentrantCall));
    // the guard outranks every other refusal
    assert_eq!(c.mint(account(2), 0, 0), Err(CollectionError::ReentrantCall));
    assert!(c.entered);
    assert_eq!(c.settle_mint(&order, true), Ok(()));
    assert!(!c.entered);
    assert_eq!(c.data.last_token_id, 3);
    assert_eq!(
        c.mint(account(2), 3, 3),
        Ok(MintOrder { to: account(2), first_id: 4, count: 3 })
    );
}

#[test]
fn refused_mint_leaves_the_guard_open() {
    let mut c = Collection::new(100, 1, 20);
    assert!(c.mint(account(1), 3, 2).is_err());
    assert!(!c.entered);
    assert!(c.mint(account(1), 3, 3).is_ok());
}

#[test]
fn failed_run_is_settled_without_counting() {
    let mut c = Collection::new(100, 1, 20);
    let mut core = Core::new();
    // someone else holds id 2 already
    assert!(core.mint_to(account(9), 2));
    let order = c.mint(account(1), 3, 3).unwrap();
    assert!(!core.run(&order));
    assert_eq!(c.settle_mint(&order, false), Ok(()));
    assert!(!c.entered);
    assert_eq!(c.data.last_token_id, 0);
}

#[test]
fn mint_stops_at_the_end_of_the_id_space() {
    let mut c = Collection::new(u64::MAX, 1, 20);
    c.data.last_token_id = u64::MAX - 10;
    let before = c;
    // ten paid tokens fit, their bonus token does not
    assert_eq!(c.mint(account(1), 10, 10), Err(custom(NFTError::CollectionIsFull)));
    assert_eq!(c, before);
    let order = c.mint(account(1), 9, 9).unwrap();
    assert_eq!(order, MintOrder { to: account(1), first_id: u64::MAX - 9, count: 9 });
    assert_eq!(order.id(8), Some(u64::MAX - 1));
    assert_eq!(order.id(9), None);
    assert_eq!(c.settle_mint(&order, true), Ok(()));
    assert_eq!(c.data.last_token_id, u64::MAX - 1);
}

#[test]
fn settle_without_a_mint_is_refused() {
    let mut c = Collection::new(25, 1, 20);
    let before = c;
    let order = MintOrder { to: account(1), first_id: 1, count: 1000 };
    assert_eq!(c.settle_mint(&order, true), Err(CollectionError::OrderNotIssued));
    assert_eq!(c, before);
    let order = MintOrder { to: account(1), first_id: 1, count: 3 };
    assert_eq!(c.settle_mint(&order, true), Err(CollectionError::OrderNotIssued));
    assert_eq!(c.settle_mint(&order, false), Err(CollectionError::OrderNotIssued));
    assert_eq!(c, before);
}

#[test]
fn settle_counts_the_issued_order_only() {
    let mut c = Collection::new(25, 1, 20);
    let order = c.mint(account(1), 3, 3).unwrap();
    assert_eq!(c.issued, 3);
    let in_flight = c;
    for other in [
        MintOrder { count: 4, ..order },
        MintOrder { count: 2, ..order },
        MintOrder { count: 0, ..order },
        MintOrder { count: 1000, ..order },
        MintOrder { first_id: 2, ..order },
        MintOrder { first_id: 0, ..order },
    ] {
        assert_eq!(c.settle_mint(&other, true), Err(CollectionError::OrderNotIssued));
        assert_eq!(c, in_flight);
    }
    assert_eq!(c.settle_mint(&order, true), Ok(()));
    assert_eq!(c.data.last_token_id, 3);
    assert!(!c.entered);
    assert_eq!(c.issued, 0);
    // settled once, not twice
    assert_eq!(c.settle_mint(&order, true), Err(CollectionError::OrderNotIssued));
    assert_eq!(c.data.last_token_id, 3);
}

#[test]
fn settle_refuses_an_order_grown_stale() {
    let mut c = Collection::new(25, 1, 20);
    let outer = c.mint(account(1), 2, 2).unwrap();
    let inner = c.mint_next(account(2), 1).unwrap();
    assert_eq!(c.settle_mint_next(&inner, true), Ok(()));
    assert_eq!(c.data.last_token_id, 1);
    // the first id of the outer order is taken now
    assert_eq!(c.settle_mint(&outer, true), Err(CollectionError::OrderNotIssued));
    assert!(c.entered);
    assert_eq!(c.settle_mint(&outer, false), Ok(()));
    assert!(!c.entered);
    assert_eq!(c.issued, 0);
    assert_eq!(c.data.last_token_id, 1);
}

#[test]
fn settle_never_counts_beyond_the_supply() {
    let mut c = Collection::new(25, 1, 20);
    c.data.last_token_id = 24;
    c.entered = true;
    c.issued = 2;
    let before = c;
    let order = MintOrder { to: account(1), first_id: 25, count: 2 };
    assert_eq!(c.settle_mint(&order, true), Err(CollectionError::OrderNotIssued));
    assert_eq!(c, before);
    let mut c = Collection::new(u64::MAX, 1, 20);
    c.data.last_token_id = u64::MAX;
    c.entered = true;
    c.issued = 1;
    let order = MintOrder { to: account(1), first_id: 0, count: 1 };
    assert_eq!(c.settle_mint(&order, true), Err(CollectionError::OrderNotIssued));
    assert_eq!(c.data.last_token_id, u64::MAX);
}

#[test]
fn settle_mint_next_counts_one_token_in_sequence() {
    let mut c = Collection::new(3, 4, 0);
    c.data.last_token_id = 3;
    let before = c;
    for other in [
        MintOrder { to: account(1), first_id: 4, count: 2 },
        MintOrder { to: account(1), first_id: 4, count: 0 },
        MintOrder { to: account(1), first_id: 5, count: 1 },
        MintOrder { to: account(1), first_id: 3, count: 1 },
        MintOrder { to: account(1), first_id: 1, count: 1000 },
    ] {
        assert_eq!(c.settle_mint_next(&other, true), Err(CollectionError::OrderNotIssued));
        assert_eq!(c, before);
        assert_eq!(c.settle_mint_next(&other, false), Ok(()));
        assert_eq!(c, before);
    }
    let order = c.mint_next(account(1), 4).unwrap();
    assert_eq!(c.settle_mint_next(&order, true), Ok(()));
    assert_eq!(c.data.last_token_id, 4);
    // the same order again names an id that is in use
    assert_eq!(c.settle_mint_next(&order, true), Err(CollectionError::OrderNotIssued));
    assert_eq!(c.data.last_token_id, 4);
}

#[test]
fn order_ids_run_from_first_upwards() {
    let order = MintOrder { to: account(1), first_id: 6, count: 3 };
    assert_eq!(order.id(0), Some(6));
    assert_eq!(order.id(1), Some(7));
    assert_eq!(order.id(2), Some(8));
    assert_eq!(order.id(3), None);
    assert_eq!(order.id(u64::MAX), None);
}

#[test]
fn mint_next_orders_one_token_for_the_caller() {
    let mut c = Collection::new(100, 4, 20);
    let mut core = Core::new();
    c.data.last_token_id = 41;
    let order = c.mint_next(account(5), 4).unwrap();
    assert_eq!(order, MintOrder { to: account(5), first_id: 42, count: 1 });
    assert_eq!(c.data.last_token_id, 41);
    assert!(core.run(&order));
    assert_eq!(c.settle_mint_next(&order, true), Ok(()));
    assert_eq!(c.data.last_token_id, 42);
    assert_eq!(core.owner_of(42), Some(account(5)));
}

#[test]
fn mint_next_wants_the_price_of_one() {
    let c = Collection::new(100, 4, 20);
    assert_eq!(c.mint_next(account(5), 3), Err(custom(NFTError::BadMintValue)));
    assert_eq!(c.mint_next(account(5), 8), Err(custom(NFTError::BadMintValue)));
}

#[test]
fn mint_next_ignores_supply_and_cap() {
    let mut c = Collection::new(3, 4, 0);
    c.data.last_token_id = 3;
    assert_eq!(
        c.mint_next(account(5), 4),
        Ok(MintOrder { to: account(5), first_id: 4, count: 1 })
    );
}

#[test]
fn mint_next_fails_when_the_counter_is_exhausted() {
    let mut c = Collection::new(u64::MAX, 4, 20);
    c.data.last_token_id = u64::MAX;
    assert_eq!(c.mint_next(account(5), 4), Err(custom(NFTError::CollectionIsFull)));
    // the payment is looked at first
    assert_eq!(c.mint_next(account(5), 5), Err(custom(NFTError::BadMintValue)));
}

#[test]
fn mint_next_does_not_touch_the_guard() {
    let mut c = Collection::new(100, 1, 20);
    let outer = c.mint(account(1), 2, 2).unwrap();
    let inner = c.mint_next(account(2), 1).unwrap();
    assert_eq!(inner.first_id, outer.first_id);
    assert_eq!(c.settle_mint_next(&inner, false), Ok(()));
    assert!(c.entered);
    assert_eq!(c.data.last_token_id, 0);
}

#[test]
fn set_base_uri_is_for_the_owner() {
    let c = Collection::new(100, 1, 20);
    let uri = String::from("ipfs://tokens/");
    assert_eq!(
        c.set_base_uri(uri.clone(), account(1), Some(account(1))),
        Ok(AttributeWrite { key: String::from("baseUri"), value: uri.clone() })
    );
    assert_eq!(
        c.set_base_uri(uri.clone(), account(2), Some(account(1))),
        Err(CollectionError::CallerIsNotOwner)
    );
    assert_eq!(c.set_base_uri(uri, account(2), None), Err(CollectionError::CallerIsNotOwner));
}

#[test]
fn withdraw_leaves_the_minimum_balance() {
    let c = Collection::new(100, 1, 20);
    let owner = account(1);
    assert_eq!(
        c.withdraw(owner, Some(owner), 1_000, 100),
        Ok(Payout { to: owner, amount: 900 })
    );
    assert_eq!(c.withdraw(owner, Some(owner), 100, 100), Ok(Payout { to: owner, amount: 0 }));
    assert_eq!(c.withdraw(owner, Some(owner), 99, 100), Ok(Payout { to: owner, amount: 0 }));
    assert_eq!(
        c.withdraw(owner, Some(owner), u128::MAX, 0),
        Ok(Payout { to: owner, amount: u128::MAX })
    );
}

#[test]
fn withdraw_is_for_the_owner() {
    let c = Collection::new(100, 1, 20);
    assert_eq!(
        c.withdraw(account(2), Some(account(1)), 1_000, 100),
        Err(CollectionError::CallerIsNotOwner)
    );
    assert_eq!(c.withdraw(account(2), None, 1_000, 100), Err(CollectionError::CallerIsNotOwner));
}

#[test]
fn failed_payout_is_a_failed_withdrawal() {
    let c = Collection::new(100, 1, 20);
    assert_eq!(c.settle_withdraw(true), Ok(()));
    assert_eq!(c.settle_withdraw(false), Err(custom(NFTError::WithdrawalFailed)));
}

#[test]
fn set_max_mint_amount_is_for_the_owner() {
    let mut c = Collection::new(10, 1, 20);
    assert_eq!(c.set_max_mint_amount(5, account(2), Some(account(1))), Err(CollectionError::CallerIsNotOwner));
    assert_eq!(c.get_max_mint_amount(), 20);
    // no bound: the cap may exceed the supply
    assert_eq!(c.set_max_mint_amount(500, account(1), Some(account(1))), Ok(()));
    assert_eq!(c.get_max_mint_amount(), 500);
    assert_eq!(c.data.max_supply, 10);
    assert_eq!(c.data.last_token_id, 0);
}

#[test]
fn token_uri_joins_base_id_and_suffix() {
    let c = Collection::new(100, 1, 20);
    let owner = Some(account(1));
    assert_eq!(c.token_uri(23, owner, "ipfs://tokens/"), Ok(String::from("ipfs://tokens/23.json")));
    assert_eq!(c.token_uri(1, owner, ""), Ok(String::from("1.json")));
    assert_eq!(c.token_uri(0, owner, "x"), Ok(String::from("x0.json")));
    assert_eq!(c.token_uri(10, owner, "x"), Ok(String::from("x10.json")));
    assert_eq!(c.token_uri(909, owner, "x"), Ok(String::from("x909.json")));
    assert_eq!(
        c.token_uri(u64::MAX, owner, "https://a.b/c?d="),
        Ok(String::from("https://a.b/c?d=18446744073709551615.json"))
    );
}

#[test]
fn token_uri_of_an_unknown_token_fails() {
    let c = Collection::new(100, 1, 20);
    assert_eq!(c.token_uri(23, None, "ipfs://tokens/"), Err(CollectionError::TokenNotExists));
}

#[test]
fn token_uri_follows_the_counter_through_the_core() {
    let a = account(7);
    let mut c = Collection::new(25, 1, 20);
    let mut core = Core::new();
    assert_eq!(mint(&mut c, &mut core, 20, a, 20), Ok(()));
    let last = c.data.last_token_id;
    for id in [0, last + 1, last + 2, u64::MAX] {
        assert_eq!(c.token_uri(id, core.owner_of(id), "b/"), Err(CollectionError::TokenNotExists));
    }
    for id in 1..=last {
        assert_eq!(c.token_uri(id, core.owner_of(id), "b/"), Ok(format!("b/{}.json", id)));
    }
}
