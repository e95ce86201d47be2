//! Paid minting of a bounded collection.
//!
//! The collection decides; it never mints. A decision that needs the token
//! core comes back as a [`MintOrder`], and the answer of the core is handed
//! in with `settle_mint` or `settle_mint_next`, which count the order that
//! was issued and no other.

use vstd::prelude::*;

use ink::primitives::AccountId;

use crate::account::is_owner;
use crate::types::{Balance, CollectionError, Data, MintOrder, NFTError};
use crate::uri::{build_uri, decimal, uri_text};

verus! {

/// The free tokens that come with a request for `mint_amount` tokens.
pub open spec fn bonus_tokens(mint_amount: u64) -> nat {
    if mint_amount == 10 {
        1
    } else if mint_amount == 20 {
        3
    } else {
        0
    }
}

/// The answer to a payment of `transferred_value` for `mint_amount` tokens.
pub open spec fn value_verdict(data: Data, transferred_value: Balance, mint_amount: u64) -> Result<
    (),
    CollectionError,
> {
    if transferred_value == mint_amount * data.price_per_mint {
        Ok(())
    } else {
        Err(CollectionError::Custom(NFTError::BadMintValue))
    }
}

/// The answer to a request for `mint_amount` tokens.
pub open spec fn amount_verdict(data: Data, mint_amount: u64) -> Result<(), CollectionError> {
    if mint_amount == 0 {
        Err(CollectionError::Custom(NFTError::CannotMintZeroTokens))
    } else if mint_amount > data.max_amount {
        Err(CollectionError::Custom(NFTError::TooManyTokensToMint))
    } else if data.last_token_id + mint_amount > data.max_supply {
        Err(CollectionError::Custom(NFTError::CollectionIsFull))
    } else {
        Ok(())
    }
}

/// The answer to the question whether a token exists, given the owner that
/// the token core reports for it.
pub open spec fn existence_verdict(owner: Option<AccountId>) -> Result<(), CollectionError> {
    if owner is Some {
        Ok(())
    } else {
        Err(CollectionError::TokenNotExists)
    }
}

/// The answer to a request for the URI of token `token_id`, given the owner
/// that the token core reports for it and the base of all URIs.
pub open spec fn uri_verdict(token_id: u64, owner: Option<AccountId>, base_uri: Seq<char>) -> Result<
    Seq<char>,
    CollectionError,
> {
    if owner is Some {
        Ok(uri_text(base_uri, token_id))
    } else {
        Err(CollectionError::TokenNotExists)
    }
}

/// The `count` ids after `data.last_token_id`, for `to`.
pub open spec fn next_order(data: Data, to: AccountId, count: nat) -> MintOrder {
    MintOrder { to, first_id: (data.last_token_id + 1) as u64, count: count as u64 }
}

/// The answer of `mint`: the guard is asked first, then the amount, then
/// the room under `max_supply` for the paid tokens and the bonus, then the
/// payment.
pub open spec fn mint_verdict(
    entered: bool,
    data: Data,
    to: AccountId,
    mint_amount: u64,
    transferred_value: Balance,
) -> Result<MintOrder, CollectionError> {
    let count = mint_amount + bonus_tokens(mint_amount);
    if entered {
        Err(CollectionError::ReentrantCall)
    } else if amount_verdict(data, mint_amount) is Err {
        Err(amount_verdict(data, mint_amount)->Err_0)
    } else if data.last_token_id + count > data.max_supply {
        Err(CollectionError::Custom(NFTError::CollectionIsFull))
    } else if value_verdict(data, transferred_value, mint_amount) is Err {
        Err(value_verdict(data, transferred_value, mint_amount)->Err_0)
    } else {
        Ok(next_order(data, to, count as nat))
    }
}

/// The answer of `mint_next`.
pub open spec fn mint_next_verdict(data: Data, caller: AccountId, transferred_value: Balance) -> Result<
    MintOrder,
    CollectionError,
> {
    if value_verdict(data, transferred_value, 1) is Err {
        Err(value_verdict(data, transferred_value, 1)->Err_0)
    } else if data.last_token_id + 1 > u64::MAX {
        Err(CollectionError::Custom(NFTError::CollectionIsFull))
    } else {
        Ok(next_order(data, caller, 1))
    }
}

/// `data` once `count` more tokens exist.
pub open spec fn with_minted(data: Data, count: u64) -> Data {
    Data { last_token_id: (data.last_token_id + count) as u64, ..data }
}

/// Whether `order` is the order of the `mint` in flight and can be counted:
/// the guard is set, the order has the number of tokens that `mint` issued,
/// it starts right after `last_token_id`, and it ends within `max_supply`.
pub open spec fn mint_order_stands(entered: bool, issued: u64, data: Data, order: MintOrder) -> bool {
    &&& entered
    &&& order.count == issued
    &&& order.first_id == data.last_token_id + 1
    &&& data.last_token_id + order.count <= data.max_supply
}

/// The answer of `settle_mint`: without a `mint` in flight there is nothing
/// to settle, and only the order that was issued is counted as minted.
pub open spec fn settle_mint_verdict(
    entered: bool,
    issued: u64,
    data: Data,
    order: MintOrder,
    minted: bool,
) -> Result<(), CollectionError> {
    if entered && (!minted || mint_order_stands(entered, issued, data, order)) {
        Ok(())
    } else {
        Err(CollectionError::OrderNotIssued)
    }
}

/// Whether `order` can be counted as an order of `mint_next`: one token,
/// right after `last_token_id`.
pub open spec fn next_order_stands(data: Data, order: MintOrder) -> bool {
    order.count == 1 && order.first_id == data.last_token_id + 1
}

/// The answer of `settle_mint_next`.
pub open spec fn settle_mint_next_verdict(data: Data, order: MintOrder, minted: bool) -> Result<
    (),
    CollectionError,
> {
    if !minted || next_order_stands(data, order) {
        Ok(())
    } else {
        Err(CollectionError::OrderNotIssued)
    }
}

/// `data` after an accepted settlement of `count` tokens.
pub open spec fn settled(data: Data, count: u64, minted: bool) -> Data {
    if minted {
        with_minted(data, count)
    } else {
        data
    }
}

/// The answer to a message that only the owner may send.
pub open spec fn owner_verdict(owner: Option<AccountId>, caller: AccountId) -> Result<(), CollectionError> {
    if owner == Some(caller) {
        Ok(())
    } else {
        Err(CollectionError::CallerIsNotOwner)
    }
}

/// What is left of `balance` above the `minimum_balance` that must stay.
pub open spec fn spendable(balance: Balance, minimum_balance: Balance) -> Balance {
    if balance >= minimum_balance {
        (balance - minimum_balance) as Balance
    } else {
        0
    }
}

/// A string attribute of the collection, to be written to its metadata.
#[derive(Debug, PartialEq, Eq)]
pub struct AttributeWrite {
    pub key: String,
    pub value: String,
}

/// Funds to be sent from the collection's account.
#[derive(Debug, Clone, Copy, PartialEq, Eq)]
pub struct Payout {
    pub to: AccountId,
    pub amount: Balance,
}

/// A collection: its mint state and the guard of `mint`.
#[derive(Debug, Clone, Copy, PartialEq, Eq, Structural)]
pub struct Collection {
    pub data: Data,
    /// Set while a `mint` waits for the token core.
    pub entered: bool,
    /// The number of tokens in the order of the `mint` in flight; 0 while
    /// there is none.
    pub issued: u64,
}

/// The checks that minting and URI lookup rest on. None of them changes
/// anything.
pub trait Internal {
    /// The mint state that the checks read.
    spec fn mint_data(&self) -> Data;

    /// Whether `transferred_value` pays for `mint_amount` tokens, to the unit.
    fn check_value(&self, transferred_value: Balance, mint_amount: u64) -> (r: Result<
        (),
        CollectionError,
    >)
        ensures
            r == value_verdict(self.mint_data(), transferred_value, mint_amount),
    ;

    /// Whether `mint_amount` tokens may be requested in one call.
    fn check_amount(&self, mint_amount: u64) -> (r: Result<(), CollectionError>)
        ensures
            r == amount_verdict(self.mint_data(), mint_amount),
    ;

    /// Whether a token is minted, given the `owner` that the token core
    /// reports for its id.
    fn token_exists(&self, owner: Option<AccountId>) -> (r: Result<(), CollectionError>)
        ensures
            r == existence_verdict(owner),
    ;
}

impl Internal for Collection {
    open spec fn mint_data(&self) -> Data {
        self.data
    }

    fn check_value(&self, transferred_value: Balance, mint_amount: u64) -> (r: Result<
        (),
        CollectionError,
    >) {
        if let Some(value) = (mint_amount as u128).checked_mul(self.data.price_per_mint) {
            if transferred_value == value {
                return Ok(());
            }
        }
        Err(CollectionError::Custom(NFTError::BadMintValue))
    }

    fn check_amount(&self, mint_amount: u64) -> (r: Result<(), CollectionError>) {
        if mint_amount == 0 {
            return Err(CollectionError::Custom(NFTError::CannotMintZeroTokens));
        }
        if mint_amount > self.data.max_amount {
            return Err(CollectionError::Custom(NFTError::TooManyTokensToMint));
        }
        if let Some(amount) = self.data.last_token_id.checked_add(mint_amount) {
            if amount <= self.data.max_supply {
                return Ok(());
            }
        }
        Err(CollectionError::Custom(NFTError::CollectionIsFull))
    }

    fn token_exists(&self, owner: Option<AccountId>) -> (r: Result<(), CollectionError>) {
        match owner {
            Some(_) => Ok(()),
            None => Err(CollectionError::TokenNotExists),
        }
    }
}

/// The messages of a collection.
pub trait PayableMintImpl: Internal {
    /// Whether a `mint` waits for the token core.
    spec fn in_mint(&self) -> bool;

    /// The number of tokens in the order of the `mint` in flight.
    spec fn issued(&self) -> u64;

    /// Asks for `mint_amount` tokens for `to`, against a payment of
    /// `transferred_value`.
    ///
    /// A request for 10 tokens brings 1 more for free, one for 20 brings 3.
    /// Refused while an earlier `mint` is under way; then unless the amount
    /// is at least 1 and at most `max_amount`; then unless the paid tokens
    /// and the bonus fit under `max_supply`; then unless the payment is the
    /// price of `mint_amount` tokens exactly. The order holds the next ids
    /// for all of them; the guard stays set from here until `settle_mint`.
    fn mint(&mut self, to: AccountId, mint_amount: u64, transferred_value: Balance) -> (r: Result<
        MintOrder,
        CollectionError,
    >)
        ensures
            r == mint_verdict(
                old(self).in_mint(),
                old(self).mint_data(),
                to,
                mint_amount,
                transferred_value,
            ),
            final(self).mint_data() == old(self).mint_data(),
            final(self).in_mint() == (old(self).in_mint() || r is Ok),
            final(self).issued() == (if r is Ok {
                r->Ok_0.count
            } else {
                old(self).issued()
            }),
    ;

    /// Takes the core's answer to the order of a `mint`: `minted` says
    /// whether every token of `order` now exists. Refused, with nothing
    /// changed, where no `mint` is in flight, and where tokens are to be
    /// counted for an order that is not the one issued. Else the guard is
    /// released, and the tokens are counted if they exist.
    fn settle_mint(&mut self, order: &MintOrder, minted: bool) -> (r: Result<(), CollectionError>)
        ensures
            r == settle_mint_verdict(
                old(self).in_mint(),
                old(self).issued(),
                old(self).mint_data(),
                *order,
                minted,
            ),
            final(self).mint_data() == (if r is Ok {
                settled(old(self).mint_data(), order.count, minted)
            } else {
                old(self).mint_data()
            }),
            final(self).in_mint() == (old(self).in_mint() && r is Err),
            final(self).issued() == (if r is Ok {
                0
            } else {
                old(self).issued()
            }),
    ;

    /// Asks for one token for `caller`, against a payment of
    /// `transferred_value`. Neither `max_supply` nor `max_amount` is
    /// consulted, only the price and the id space.
    fn mint_next(&self, caller: AccountId, transferred_value: Balance) -> (r: Result<
        MintOrder,
        CollectionError,
    >)
        ensures
            r == mint_next_verdict(self.mint_data(), caller, transferred_value),
    ;

    /// Takes the core's answer to the order of a `mint_next`: the token is
    /// counted if it exists. Refused, with nothing changed, where a token is
    /// to be counted for an order that is not one token right after
    /// `last_token_id`.
    fn settle_mint_next(&mut self, order: &MintOrder, minted: bool) -> (r: Result<
        (),
        CollectionError,
    >)
        ensures
            r == settle_mint_next_verdict(old(self).mint_data(), *order, minted),
            final(self).mint_data() == (if r is Ok {
                settled(old(self).mint_data(), order.count, minted)
            } else {
                old(self).mint_data()
            }),
            final(self).in_mint() == old(self).in_mint(),
            final(self).issued() == old(self).issued(),
    ;

    /// The owner sets the base of all token URIs: the answer is the
    /// attribute to write.
    fn set_base_uri(&self, uri: String, caller: AccountId, owner: Option<AccountId>) -> (r: Result<
        AttributeWrite,
        CollectionError,
    >)
        ensures
            r is Ok <==> owner == Some(caller),
            r is Err ==> r->Err_0 == CollectionError::CallerIsNotOwner,
            r is Ok ==> r->Ok_0.key@ == "baseUri"@ && r->Ok_0.value@ == uri@,
    ;

    /// The owner takes the funds of the collection: all of `balance` but the
    /// `minimum_balance` that the account must keep, nothing if there is less.
    fn withdraw(
        &self,
        caller: AccountId,
        owner: Option<AccountId>,
        balance: Balance,
        minimum_balance: Balance,
    ) -> (r: Result<Payout, CollectionError>)
        ensures
            r is Ok <==> owner == Some(caller),
            r is Err ==> r->Err_0 == CollectionError::CallerIsNotOwner,
            r is Ok ==> r->Ok_0 == (Payout {
                to: caller,
                amount: spendable(balance, minimum_balance),
            }),
    ;

    /// Takes the answer to the payout of a `withdraw`: `transferred` says
    /// whether the funds went out.
    fn settle_withdraw(&self, transferred: bool) -> (r: Result<(), CollectionError>)
        ensures
            r == (if transferred {
                Ok::<(), CollectionError>(())
            } else {
                Err(CollectionError::Custom(NFTError::WithdrawalFailed))
            }),
    ;

    /// The owner sets the most tokens that one `mint` may request. The new
    /// cap is not held against `max_supply`.
    fn set_max_mint_amount(&mut self, max_amount: u64, caller: AccountId, owner: Option<AccountId>) -> (r:
        Result<(), CollectionError>)
        ensures
            r == owner_verdict(owner, caller),
            final(self).in_mint() == old(self).in_mint(),
            final(self).issued() == old(self).issued(),
            final(self).mint_data() == (if r is Ok {
                Data { max_amount, ..old(self).mint_data() }
            } else {
                old(self).mint_data()
            }),
    ;

    /// The URI of token `token_id`, given the `owner` that the token core
    /// reports for it and the stored base URI.
    fn token_uri(&self, token_id: u64, owner: Option<AccountId>, base_uri: &str) -> (r: Result<
        String,
        CollectionError,
    >)
        ensures
            match r {
                Ok(uri) => uri_verdict(token_id, owner, base_uri@) == Ok::<
                    Seq<char>,
                    CollectionError,
                >(uri@),
                Err(e) => uri_verdict(token_id, owner, base_uri@) == Err::<
                    Seq<char>,
                    CollectionError,
                >(e),
            },
    ;

    fn max_supply(&self) -> (r: u64)
        ensures
            r == self.mint_data().max_supply,
    ;

    fn price(&self) -> (r: Balance)
        ensures
            r == self.mint_data().price_per_mint,
    ;

    fn get_max_mint_amount(&mut self) -> (r: u64)
        ensures
            r == old(self).mint_data().max_amount,
            final(self).mint_data() == old(self).mint_data(),
            final(self).in_mint() == old(self).in_mint(),
            final(self).issued() == old(self).issued(),
    ;
}

impl Collection {
    /// A collection in which nothing is minted yet.
    pub fn new(max_supply: u64, price_per_mint: Balance, max_amount: u64) -> (c: Collection)
        ensures
            c == (Collection {
                data: Data {
                    last_token_id: 0,
                    collection_id: 0,
                    max_supply,
                    price_per_mint,
                    max_amount,
                },
                entered: false,
                issued: 0,
            }),
    {
        Collection {
            data: Data { last_token_id: 0, collection_id: 0, max_supply, price_per_mint, max_amount },
            entered: false,
            issued: 0,
        }
    }

    /// The counter after `order`, where `order` starts right after
    /// `last_token_id` and the counter can hold its tokens.
    fn counter_after(&self, order: &MintOrder) -> (r: Option<u64>)
        ensures
            r is Some <==> order.first_id == self.data.last_token_id + 1 && self.data.last_token_id
                + order.count <= u64::MAX,
            r is Some ==> r->Some_0 == self.data.last_token_id + order.count,
    {
        match self.data.last_token_id.checked_add(1) {
            Some(next) => if next == order.first_id {
                self.data.last_token_id.checked_add(order.count)
            } else {
                None
            },
            None => None,
        }
    }
}

/// The number of free tokens that come with `mint_amount` paid ones.
pub fn bonus_for(mint_amount: u64) -> (bonus: u64)
    ensures
        bonus == bonus_tokens(mint_amount),
{
    match mint_amount {
        10 => 1,
        20 => 3,
        _ => 0,
    }
}

impl PayableMintImpl for Collection {
    open spec fn in_mint(&self) -> bool {
        self.entered
    }

    open spec fn issued(&self) -> u64 {
        self.issued
    }

    fn mint(&mut self, to: AccountId, mint_amount: u64, transferred_value: Balance) -> (r: Result<
        MintOrder,
        CollectionError,
    >) {
        if self.entered {
            return Err(CollectionError::ReentrantCall);
        }
        self.check_amount(mint_amount)?;

        // no overflow: check_amount has held this sum against max_supply
        let paid: u64 = self.data.last_token_id + mint_amount;
        let bonus: u64 = bonus_for(mint_amount);
        let fits = match paid.checked_add(bonus) {
            Some(last) => last <= self.data.max_supply,
            None => false,
        };
        if !fits {
            return Err(CollectionError::Custom(NFTError::CollectionIsFull));
        }
        self.check_value(transferred_value, mint_amount)?;

        let count: u64 = mint_amount + bonus;
        self.entered = true;
        self.issued = count;
        // the first id is 1
        Ok(MintOrder { to, first_id: self.data.last_token_id + 1, count })
    }

    fn settle_mint(&mut self, order: &MintOrder, minted: bool) -> (r: Result<(), CollectionError>) {
        if !self.entered {
            return Err(CollectionError::OrderNotIssued);
        }
        if minted {
            if order.count != self.issued {
                return Err(CollectionError::OrderNotIssued);
            }
            match self.counter_after(order) {
                Some(last) => {
                    if last > self.data.max_supply {
                        return Err(CollectionError::OrderNotIssued);
                    }
                    self.data.last_token_id = last;
                },
                None => {
                    return Err(CollectionError::OrderNotIssued);
                },
            }
        }
        self.entered = false;
        self.issued = 0;
        Ok(())
    }

    fn mint_next(&self, caller: AccountId, transferred_value: Balance) -> (r: Result<
        MintOrder,
        CollectionError,
    >) {
        self.check_value(transferred_value, 1)?;
        match self.data.last_token_id.checked_add(1) {
            Some(token_id) => Ok(MintOrder { to: caller, first_id: token_id, count: 1 }),
            None => Err(CollectionError::Custom(NFTError::CollectionIsFull)),
        }
    }

    fn settle_mint_next(&mut self, order: &MintOrder, minted: bool) -> (r: Result<
        (),
        CollectionError,
    >) {
        if minted {
            if order.count != 1 {
                return Err(CollectionError::OrderNotIssued);
            }
            match self.counter_after(order) {
                Some(last) => {
                    self.data.last_token_id = last;
                },
                None => {
                    return Err(CollectionError::OrderNotIssued);
                },
            }
        }
        Ok(())
    }

    fn set_base_uri(&self, uri: String, caller: AccountId, owner: Option<AccountId>) -> (r: Result<
        AttributeWrite,
        CollectionError,
    >) {
        if !is_owner(&owner, &caller) {
            return Err(CollectionError::CallerIsNotOwner);
        }
        Ok(AttributeWrite { key: "baseUri".to_owned(), value: uri })
    }

    fn withdraw(
        &self,
        caller: AccountId,
        owner: Option<AccountId>,
        balance: Balance,
        minimum_balance: Balance,
    ) -> (r: Result<Payout, CollectionError>) {
        if !is_owner(&owner, &caller) {
            return Err(CollectionError::CallerIsNotOwner);
        }
        let amount = match balance.checked_sub(minimum_balance) {
            Some(rest) => rest,
            None => 0,
        };
        Ok(Payout { to: caller, amount })
    }

    fn settle_withdraw(&self, transferred: bool) -> (r: Result<(), CollectionError>) {
        if transferred {
            Ok(())
        } else {
            Err(CollectionError::Custom(NFTError::WithdrawalFailed))
        }
    }

    fn set_max_mint_amount(&mut self, max_amount: u64, caller: AccountId, owner: Option<AccountId>) -> (r:
        Result<(), CollectionError>) {
        if !is_owner(&owner, &caller) {
            return Err(CollectionError::CallerIsNotOwner);
        }
        self.data.max_amount = max_amount;
        Ok(())
    }

    fn token_uri(&self, token_id: u64, owner: Option<AccountId>, base_uri: &str) -> (r: Result<
        String,
        CollectionError,
    >) {
        self.token_exists(owner)?;
        Ok(build_uri(base_uri, token_id))
    }

    fn max_supply(&self) -> (r: u64) {
        self.data.max_supply
    }

    fn price(&self) -> (r: Balance) {
        self.data.price_per_mint
    }

    fn get_max_mint_amount(&mut self) -> (r: u64) {
        self.data.max_amount
    }
}

/// An order of `mint` holds the paid tokens and the bonus: 11 tokens for a
/// request of 10, 23 for one of 20, and as many as were asked for otherwise.
/// It is the order that `settle_mint` then accepts, and once it is settled
/// as minted, `last_token_id` is higher by that number.
pub proof fn lemma_mint_counts_bonus(
    data: Data,
    to: AccountId,
    mint_amount: u64,
    transferred_value: Balance,
)
    requires
        mint_verdict(false, data, to, mint_amount, transferred_value) is Ok,
    ensures
        ({
            let order = mint_verdict(false, data, to, mint_amount, transferred_value)->Ok_0;
            &&& order.to == to
            &&& order.first_id == data.last_token_id + 1
            &&& order.count == mint_amount + bonus_tokens(mint_amount)
            &&& mint_amount == 10 ==> order.count == 11
            &&& mint_amount == 20 ==> order.count == 23
            &&& mint_amount != 10 && mint_amount != 20 ==> order.count == mint_amount
            &&& settle_mint_verdict(true, order.count, data, order, true) is Ok
            &&& settled(data, order.count, true).last_token_id == data.last_token_id + order.count
        }),
{
}

/// `mint` succeeds exactly if no other `mint` is under way, at least one
/// token and at most `max_amount` are asked for, they and their bonus fit
/// under `max_supply`, and the payment is the price of the tokens asked
/// for, to the unit.
pub proof fn lemma_mint_succeeds_iff(
    entered: bool,
    data: Data,
    to: AccountId,
    mint_amount: u64,
    transferred_value: Balance,
)
    ensures
        mint_verdict(entered, data, to, mint_amount, transferred_value) is Ok <==> {
            &&& !entered
            &&& 0 < mint_amount <= data.max_amount
            &&& data.last_token_id + mint_amount + bonus_tokens(mint_amount) <= data.max_supply
            &&& transferred_value == mint_amount * data.price_per_mint
        },
{
}

/// Each refusal of `mint` has its own cause. The guard comes first, then the
/// amount, then the supply, then the payment.
pub proof fn lemma_mint_refusals(
    entered: bool,
    data: Data,
    to: AccountId,
    mint_amount: u64,
    transferred_value: Balance,
)
    ensures
        ({
            let r = mint_verdict(entered, data, to, mint_amount, transferred_value);
            let in_limits = 0 < mint_amount <= data.max_amount;
            let in_supply = data.last_token_id + mint_amount + bonus_tokens(mint_amount)
                <= data.max_supply;
            let paid = transferred_value == mint_amount * data.price_per_mint;
            &&& r == Err::<MintOrder, CollectionError>(CollectionError::ReentrantCall) <==> entered
            &&& r == Err::<MintOrder, CollectionError>(
                CollectionError::Custom(NFTError::CannotMintZeroTokens),
            ) <==> !entered && mint_amount == 0
            &&& r == Err::<MintOrder, CollectionError>(
                CollectionError::Custom(NFTError::TooManyTokensToMint),
            ) <==> !entered && mint_amount > data.max_amount && mint_amount != 0
            &&& r == Err::<MintOrder, CollectionError>(
                CollectionError::Custom(NFTError::CollectionIsFull),
            ) <==> !entered && in_limits && !in_supply
            &&& r == Err::<MintOrder, CollectionError>(
                CollectionError::Custom(NFTError::BadMintValue),
            ) <==> !entered && in_limits && in_supply && !paid
        }),
{
}

/// A `mint` that is accepted and settled keeps `last_token_id` within
/// `max_supply`, and so does every settlement that `settle_mint` accepts.
pub proof fn lemma_mint_keeps_supply(
    data: Data,
    to: AccountId,
    mint_amount: u64,
    transferred_value: Balance,
    entered: bool,
    issued: u64,
    order: MintOrder,
)
    ensures
        mint_verdict(false, data, to, mint_amount, transferred_value) matches Ok(o) ==> settled(
            data,
            o.count,
            true,
        ).last_token_id <= data.max_supply,
        settle_mint_verdict(entered, issued, data, order, true) is Ok ==> settled(
            data,
            order.count,
            true,
        ).last_token_id <= data.max_supply,
        settled(data, order.count, true).max_supply == data.max_supply,
{
}

/// A request within the caller's limits that would take the collection over
/// `max_supply`, the bonus counted in, is refused as `CollectionIsFull`,
/// whatever was paid.
pub proof fn lemma_full_collection_refuses(
    data: Data,
    to: AccountId,
    mint_amount: u64,
    transferred_value: Balance,
)
    requires
        0 < mint_amount <= data.max_amount,
        data.last_token_id + mint_amount + bonus_tokens(mint_amount) > data.max_supply,
    ensures
        mint_verdict(false, data, to, mint_amount, transferred_value) == Err::<
            MintOrder,
            CollectionError,
        >(CollectionError::Custom(NFTError::CollectionIsFull)),
{
}

/// While a `mint` is under way, every further `mint` is refused as
/// re-entrant.
pub proof fn lemma_guard_refuses(data: Data, to: AccountId, mint_amount: u64, transferred_value: Balance)
    ensures
        mint_verdict(true, data, to, mint_amount, transferred_value) == Err::<
            MintOrder,
            CollectionError,
        >(CollectionError::ReentrantCall),
{
}

/// No tokens are counted for an order that was not issued: not without a
/// `mint` in flight, not for another number of tokens than `mint` issued,
/// not for ids that do not start right after `last_token_id`, and not for
/// tokens beyond `max_supply`.
pub proof fn lemma_unissued_order_refused(
    entered: bool,
    issued: u64,
    data: Data,
    order: MintOrder,
    minted: bool,
)
    ensures
        !entered ==> settle_mint_verdict(entered, issued, data, order, minted) is Err,
        order.count != issued || order.first_id != data.last_token_id + 1 || data.last_token_id
            + order.count > data.max_supply ==> settle_mint_verdict(
            entered,
            issued,
            data,
            order,
            true,
        ) is Err,
        order.count != 1 || order.first_id != data.last_token_id + 1
            ==> settle_mint_next_verdict(data, order, true) is Err,
{
}

/// Ids are given out in order and once: an order of `mint` or `mint_next`
/// holds ids that are not in use, starting right after `last_token_id`;
/// once it is settled as minted, exactly the ids in use before and the ids
/// of the order are in use.
pub proof fn lemma_ids_in_sequence(data: Data, order: MintOrder, id: u64)
    requires
        order.first_id == data.last_token_id + 1,
        data.last_token_id + order.count <= u64::MAX,
    ensures
        order.holds(id) ==> !data.in_use(id),
        settled(data, order.count, true).in_use(id) <==> data.in_use(id) || order.holds(id),
{
}

/// An accepted settlement never lowers `last_token_id`, and changes nothing
/// else of the mint state.
pub proof fn lemma_counter_only_grows(data: Data, order: MintOrder, minted: bool)
    requires
        minted ==> data.last_token_id + order.count <= u64::MAX,
    ensures
        settled(data, order.count, minted).last_token_id >= data.last_token_id,
        settled(data, order.count, minted) == (Data {
            last_token_id: settled(data, order.count, minted).last_token_id,
            ..data
        }),
        !minted ==> settled(data, order.count, minted) == data,
{
}

/// Where the token core reports an owner exactly for the ids in use, the
/// URI of an id above `last_token_id`, or of id 0, is refused as unknown,
/// and the URI of every other id is the base, the id in decimal and `.json`.
pub proof fn lemma_uri_of_ids_in_use(
    data: Data,
    token_id: u64,
    owner: Option<AccountId>,
    base_uri: Seq<char>,
)
    requires
        owner is Some <==> data.in_use(token_id),
    ensures
        uri_verdict(token_id, owner, base_uri) == (if token_id == 0 || token_id
            > data.last_token_id {
            Err::<Seq<char>, CollectionError>(CollectionError::TokenNotExists)
        } else {
            Ok(base_uri + decimal(token_id as nat) + ".json"@)
        }),
{
}

} // verus!
