//! The state of a collection and the reasons for which its messages fail.

use vstd::prelude::*;

use ink::primitives::AccountId;

verus! {

/// An amount of the chain's currency, in minor units.
pub type Balance = u128;

/// What a collection knows about its own minting.
///
/// Token ids are handed out in order, starting at 1: the ids in use are
/// `1..=last_token_id`.
#[derive(Debug, Clone, Copy, PartialEq, Eq, Structural)]
pub struct Data {
    /// The id given to the most recent token; 0 before the first.
    pub last_token_id: u64,
    pub collection_id: u32,
    /// The ceiling of `mint`: no `mint` takes `last_token_id` beyond it, the
    /// bonus tokens included.
    pub max_supply: u64,
    /// The price of one token.
    pub price_per_mint: Balance,
    /// The most tokens that one `mint` may request.
    pub max_amount: u64,
}

impl Data {
    /// Whether `id` is in use: the ids in use are `1..=last_token_id`.
    pub open spec fn in_use(self, id: u64) -> bool {
        1 <= id <= self.last_token_id
    }
}

impl Default for Data {
    fn default() -> (d: Data)
        ensures
            d == (Data {
                last_token_id: 0,
                collection_id: 0,
                max_supply: 0,
                price_per_mint: 0,
                max_amount: 0,
            }),
    {
        Data { last_token_id: 0, collection_id: 0, max_supply: 0, price_per_mint: 0, max_amount: 0 }
    }
}

/// The collection's own reasons to refuse a message.
#[derive(Debug, Clone, Copy, PartialEq, Eq, Structural)]
pub enum NFTError {
    /// The payment is not the price of the requested tokens.
    BadMintValue,
    CannotMintZeroTokens,
    /// The supply ceiling or the id space is exhausted.
    CollectionIsFull,
    /// More tokens requested than one call may mint.
    TooManyTokensToMint,
    WithdrawalFailed,
}

impl NFTError {
    /// The name under which callers see the error.
    pub open spec fn name(self) -> Seq<char> {
        match self {
            NFTError::BadMintValue => "BadMintValue"@,
            NFTError::CannotMintZeroTokens => "CannotMintZeroTokens"@,
            NFTError::CollectionIsFull => "CollectionIsFull"@,
            NFTError::TooManyTokensToMint => "TooManyTokensToMint"@,
            NFTError::WithdrawalFailed => "WithdrawalFailed"@,
        }
    }

    pub fn as_str(&self) -> (s: String)
        ensures
            s@ == self.name(),
    {
        match self {
            NFTError::BadMintValue => "BadMintValue".to_owned(),
            NFTError::CannotMintZeroTokens => "CannotMintZeroTokens".to_owned(),
            NFTError::CollectionIsFull => "CollectionIsFull".to_owned(),
            NFTError::TooManyTokensToMint => "TooManyTokensToMint".to_owned(),
            NFTError::WithdrawalFailed => "WithdrawalFailed".to_owned(),
        }
    }
}

/// Why a message of the collection failed.
#[derive(Debug, Clone, Copy, PartialEq, Eq, Structural)]
pub enum CollectionError {
    /// One of the collection's own rules.
    Custom(NFTError),
    /// The caller is not the owner of the collection.
    CallerIsNotOwner,
    /// `mint` was called while an earlier `mint` had not finished.
    ReentrantCall,
    /// No token has that id.
    TokenNotExists,
    /// The order to settle is not the one that was issued.
    OrderNotIssued,
}

impl CollectionError {
    /// The text under which callers see the error.
    pub open spec fn name(self) -> Seq<char> {
        match self {
            CollectionError::Custom(e) => e.name(),
            CollectionError::CallerIsNotOwner => "O::CallerIsNotOwner"@,
            CollectionError::ReentrantCall => "RG::ReentrantCall"@,
            CollectionError::TokenNotExists => "TokenNotExists"@,
            CollectionError::OrderNotIssued => "OrderNotIssued"@,
        }
    }

    pub fn as_str(&self) -> (s: String)
        ensures
            s@ == self.name(),
    {
        match self {
            CollectionError::Custom(e) => e.as_str(),
            CollectionError::CallerIsNotOwner => "O::CallerIsNotOwner".to_owned(),
            CollectionError::ReentrantCall => "RG::ReentrantCall".to_owned(),
            CollectionError::TokenNotExists => "TokenNotExists".to_owned(),
            CollectionError::OrderNotIssued => "OrderNotIssued".to_owned(),
        }
    }
}

/// Tokens that the token core is asked to mint: the ids
/// `first_id .. first_id + count`, in that order, each to `to`.
#[derive(Debug, Clone, Copy, PartialEq, Eq)]
pub struct MintOrder {
    pub to: AccountId,
    pub first_id: u64,
    pub count: u64,
}

impl MintOrder {
    /// Whether `id` is one of the ids of the order.
    pub open spec fn holds(self, id: u64) -> bool {
        self.first_id <= id < self.first_id + self.count
    }

    /// The id of token number `k` of the order, counting from 0; `None`
    /// past the end of the order or of the id space.
    pub fn id(&self, k: u64) -> (r: Option<u64>)
        ensures
            r is Some <==> k < self.count && self.first_id + k <= u64::MAX,
            r is Some ==> r->Some_0 == self.first_id + k && self.holds(r->Some_0),
    {
        if k < self.count {
            self.first_id.checked_add(k)
        } else {
            None
        }
    }
}

} // verus!
