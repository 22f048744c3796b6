//! The one-way calls that an actor issues to other actors or to the
//! platform. None of them is awaited: the actor's own state is committed
//! before any of them is known to have succeeded.
use vstd::prelude::*;

verus! {

/// The code installed in a spawned actor.
#[derive(Debug, Clone, Copy, PartialEq, Eq, Structural)]
pub enum Code {
    /// A share ledger.
    Shares,
    /// A wrapper of one asset contract.
    Wrapper,
}

/// One outbound call, in the order issued.
#[derive(Debug, Clone, PartialEq, Eq)]
pub enum Action {
    /// Create the account `account_id`, fund it with `deposit` and install `code`.
    Spawn { account_id: String, deposit: u128, code: Code },
    /// Initialize the share ledger at `shares_contract`.
    InitShares {
        shares_contract: String,
        nft_contract_address: String,
        nft_token_id: String,
        owner_id: String,
        shares_count: u128,
        decimals: u8,
        share_price: u128,
    },
    /// Ask `nft_contract_address` to hand token `token_id` to `receiver_id`.
    NftTransfer { nft_contract_address: String, receiver_id: String, token_id: String },
    /// Pay `amount` of settlement currency to `receiver_id`.
    Transfer { receiver_id: String, amount: u128 },
    /// Pay `amount` to `receiver_id`; once the platform accepts the payment,
    /// call the ledger's own `cleanup`.
    TransferThenCleanup { receiver_id: String, amount: u128 },
    /// Delete the calling actor and send what it holds to `beneficiary_id`.
    DeleteAccount { beneficiary_id: String },
}

} // verus!
