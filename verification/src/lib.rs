//! The rules of two token contracts: a fungible game token that keeps
//! statistics of NFTs and games in progress, and a bounded NFT collection
//! with paid minting.
//!
//! The library holds the state that the contracts own and decides what each
//! message does. Balances, token ownership, metadata and funds belong to the
//! chain: a message that needs them answers with an order (`MintOrder`,
//! `LedgerMint`, `LedgerBurn`, `Payout`, `AttributeWrite`), and where the
//! outcome matters, a `settle_..` function takes it.

pub mod account;
pub mod erc20;
pub mod payable_mint;
pub mod types;
pub mod uri;
