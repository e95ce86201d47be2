use game_tokens::erc20::GameError;
use game_tokens::types::{CollectionError, Data, NFTError};

#[test]
fn nft_error_names() {
    assert_eq!(NFTError::BadMintValue.as_str(), "BadMintValue");
    assert_eq!(NFTError::CannotMintZeroTokens.as_str(), "CannotMintZeroTokens");
    assert_eq!(NFTError::CollectionIsFull.as_str(), "CollectionIsFull");
    assert_eq!(NFTError::TooManyTokensToMint.as_str(), "TooManyTokensToMint");
    assert_eq!(NFTError::WithdrawalFailed.as_str(), "WithdrawalFailed");
}

#[test]
fn collection_error_names() {
    assert_eq!(CollectionError::Custom(NFTError::BadMintValue).as_str(), "BadMintValue");
    assert_eq!(CollectionError::Custom(NFTError::WithdrawalFailed).as_str(), "WithdrawalFailed");
    assert_eq!(CollectionError::CallerIsNotOwner.as_str(), "O::CallerIsNotOwner");
    assert_eq!(CollectionError::ReentrantCall.as_str(), "RG::ReentrantCall");
    assert_eq!(CollectionError::TokenNotExists.as_str(), "TokenNotExists");
    assert_eq!(CollectionError::OrderNotIssued.as_str(), "OrderNotIssued");
}

#[test]
fn game_error_messages() {
    assert_eq!(GameError::CallerIsNotOwner.as_str(), "O::CallerIsNotOwner");
    assert_eq!(GameError::WrongFee.as_str(), "Must pay 0.004 $AZERO fees to start the game");
    assert_eq!(GameError::NoOngoingGame.as_str(), "User does not have an ongoing game");
    assert_eq!(GameError::BurnAmountOverflow.as_str(), "attempt to multiply with overflow");
    assert_eq!(GameError::BurnFailed.as_str(), "Should burn tokens");
    assert_eq!(GameError::StatOverflow.as_str(), "attempt to add with overflow");
}

#[test]
fn default_data_is_all_zero() {
    let d = Data::default();
    assert_eq!(
        d,
        Data { last_token_id: 0, collection_id: 0, max_supply: 0, price_per_mint: 0, max_amount: 0 }
    );
}
