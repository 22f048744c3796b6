use fractose::actions::Action;
use fractose::ledger::LedgerError;
use fractose::metadata::{MetadataError, SharesMetadata, SharesMetadataProvider, SHARES_FT_METADATA_SPEC};
use fractose::shares::{Shares, SharesError, DATA_IMAGE_SVG_NEAR_ICON};

const TOTAL_SUPPLY: u128 = 1_000_000_000_000_000;
const NFT_CONTRACT_ADDRESS: &str = "nft.near";
const NFT_TOKEN_ID: &str = "0";
const DECIMALS: u8 = 8;
const SHARE_PRICE: u128 = 100000;

fn accounts(i: usize) -> String {
    ["alice", "bob", "charlie", "danny", "eugene", "fargo"][i].to_string()
}

fn new_shares(owner: &str) -> Shares {
    Shares::create(
        NFT_CONTRACT_ADDRESS.to_string(),
        NFT_TOKEN_ID.to_string(),
        owner.to_string(),
        TOTAL_SUPPLY,
        DECIMALS,
        SHARE_PRICE,
    )
}

#[test]
fn test_new() {
    let contract = new_shares(&accounts(0));
    assert_eq!(contract.ft_total_supply(), TOTAL_SUPPLY);
    assert_eq!(contract.ft_balance_of(&accounts(0)), TOTAL_SUPPLY);

    let expected_exit_price = TOTAL_SUPPLY * SHARE_PRICE;
    assert_eq!(contract.exit_price(), expected_exit_price);
}

#[test]
fn test_transfer() {
    let mut contract = new_shares(&accounts(2));
    contract.storage_deposit(&accounts(1));
    let transfer_amount = TOTAL_SUPPLY / 3;
    contract.ft_transfer(&accounts(2), &accounts(1), transfer_amount).unwrap();
    assert_eq!(contract.ft_balance_of(&accounts(2)), TOTAL_SUPPLY - transfer_amount);
    assert_eq!(contract.ft_balance_of(&accounts(1)), transfer_amount);
}

#[test]
fn test_redeem_with_shares() {
    let mut contract = new_shares(&accounts(0));
    contract.redeem(&accounts(0), 0).unwrap();

    let SharesMetadata { released, .. } = contract.ft_metadata();
    assert!(released);
    let user_balance = contract.ft_balance_of(&accounts(0));
    assert!(user_balance == 0);
    assert!(contract.ft_total_supply() == 0);
}

#[test]
fn test_redeem_with_exit_price() {
    let mut contract = new_shares(&accounts(1));
    let redeem_amount = contract.redeem_amount_of(&accounts(0)).unwrap();
    contract.redeem(&accounts(0), redeem_amount).unwrap();

    let SharesMetadata { released, .. } = contract.ft_metadata();
    assert!(released);
    let user_balance = contract.ft_balance_of(&accounts(0));
    assert!(user_balance == 0);
    assert!(contract.ft_total_supply() == TOTAL_SUPPLY);
}

#[test]
fn test_redeem_with_shares_and_exit_price() {
    let mut contract = new_shares(&accounts(0));
    contract.storage_deposit(&accounts(1));

    let transferred_shares: u128 = 100;
    contract.ft_transfer(&accounts(0), &accounts(1), transferred_shares).unwrap();

    let sender_balance = contract.ft_balance_of(&accounts(0));
    let receiver_balance = contract.ft_balance_of(&accounts(1));
    assert_eq!(sender_balance, TOTAL_SUPPLY - transferred_shares, "Error sender balance: {}", sender_balance);
    assert_eq!(receiver_balance, transferred_shares, "Error receiver balance: {}", receiver_balance);

    let redeem_amount = contract.redeem_amount_of(&accounts(1)).unwrap();
    let exit_price = contract.exit_price();
    assert!(redeem_amount + transferred_shares * SHARE_PRICE == exit_price);

    contract.redeem(&accounts(1), redeem_amount).unwrap();

    assert!(contract.ft_metadata().released);
    assert!(
        contract.ft_total_supply() == TOTAL_SUPPLY - transferred_shares,
        "Total supply {}",
        contract.ft_total_supply()
    );
    let shareholder_balance = contract.ft_balance_of(&accounts(0));
    let redeemer_balance = contract.ft_balance_of(&accounts(1));
    assert!(
        redeemer_balance == 0,
        "Redeemer balance: {}, shareholder balance: {}",
        redeemer_balance,
        shareholder_balance
    );
}

#[test]
fn redeem_by_sole_holder_needs_no_payment_and_deletes_the_ledger() {
    let mut contract = new_shares(&accounts(0));
    assert_eq!(contract.redeem_amount_of(&accounts(0)), Ok(0));
    let actions = contract.redeem(&accounts(0), 0).unwrap();
    assert_eq!(contract.ft_total_supply(), 0);
    assert!(contract.ft_metadata().released);
    assert_eq!(
        actions,
        vec![
            Action::Transfer { receiver_id: accounts(0), amount: 0 },
            Action::NftTransfer {
                nft_contract_address: NFT_CONTRACT_ADDRESS.to_string(),
                receiver_id: accounts(0),
                token_id: NFT_TOKEN_ID.to_string(),
            },
            Action::DeleteAccount { beneficiary_id: accounts(0) },
        ]
    );
}

#[test]
fn redeem_refunds_the_excess_payment() {
    let mut contract = new_shares(&accounts(1));
    let required = contract.redeem_amount_of(&accounts(0)).unwrap();
    assert_eq!(required, TOTAL_SUPPLY * SHARE_PRICE);
    let actions = contract.redeem(&accounts(0), required + 7).unwrap();
    assert_eq!(actions.len(), 2);
    assert_eq!(actions[0], Action::Transfer { receiver_id: accounts(0), amount: 7 });
}

#[test]
fn redeem_with_too_little_payment_fails() {
    let mut contract = new_shares(&accounts(1));
    let required = contract.redeem_amount_of(&accounts(0)).unwrap();
    assert_eq!(contract.redeem(&accounts(0), required - 1), Err(SharesError::InsufficientPayment));
    assert!(!contract.ft_metadata().released);
    assert_eq!(contract.ft_balance_of(&accounts(1)), TOTAL_SUPPLY);
}

#[test]
fn second_redeem_fails() {
    let mut contract = new_shares(&accounts(0));
    contract.storage_deposit(&accounts(1));
    contract.ft_transfer(&accounts(0), &accounts(1), 10).unwrap();
    contract.redeem(&accounts(0), 10 * SHARE_PRICE).unwrap();
    assert_eq!(contract.redeem(&accounts(1), u128::MAX), Err(SharesError::AlreadyRedeemed));
    assert_eq!(contract.redeem_amount_of(&accounts(1)), Err(SharesError::AlreadyRedeemed));
}

#[test]
fn partial_redeem_then_claim() {
    let x: u128 = 100;
    let mut contract = new_shares(&accounts(1));
    contract.storage_deposit(&accounts(0));
    contract.ft_transfer(&accounts(1), &accounts(0), x).unwrap();
    assert_eq!(contract.vault_balance(), 0);
    assert_eq!(contract.vault_balance_of(&accounts(0)), 0);

    let required = contract.redeem_amount_of(&accounts(1)).unwrap();
    assert_eq!(required, x * SHARE_PRICE);
    contract.redeem(&accounts(1), required).unwrap();
    assert!(contract.ft_metadata().released);
    assert_eq!(contract.ft_balance_of(&accounts(1)), 0);
    assert_eq!(contract.ft_balance_of(&accounts(0)), x);
    assert_eq!(contract.vault_balance_of(&accounts(0)), x * SHARE_PRICE);
    assert_eq!(contract.vault_balance(), x * SHARE_PRICE);

    let actions = contract.claim(&accounts(0)).unwrap();
    assert_eq!(actions, vec![Action::TransferThenCleanup { receiver_id: accounts(0), amount: x * SHARE_PRICE }]);
    assert_eq!(contract.ft_balance_of(&accounts(0)), 0);
    assert_eq!(contract.ft_total_supply(), 0);
    assert_eq!(contract.claim(&accounts(0)), Err(SharesError::NothingToClaim));
    assert_eq!(contract.cleanup(&accounts(0)), vec![Action::DeleteAccount { beneficiary_id: accounts(0) }]);
}

#[test]
fn claim_before_release_fails() {
    let mut contract = new_shares(&accounts(0));
    assert_eq!(contract.claim(&accounts(0)), Err(SharesError::NotRedeemed));
    assert_eq!(contract.cleanup(&accounts(0)), vec![]);
}

#[test]
fn claim_of_worthless_shares_fails() {
    let mut contract = Shares::create("nft.near".to_string(), "0".to_string(), accounts(0), 10, 0, 0);
    contract.storage_deposit(&accounts(1));
    contract.ft_transfer(&accounts(0), &accounts(1), 4).unwrap();
    contract.redeem(&accounts(0), 0).unwrap();
    assert_eq!(contract.claim(&accounts(1)), Err(SharesError::AlreadyClaimed));
    assert_eq!(contract.ft_balance_of(&accounts(1)), 4);
}

#[test]
fn supply_is_the_sum_of_balances_after_transfers() {
    let mut contract = new_shares(&accounts(0));
    contract.storage_deposit(&accounts(1));
    contract.storage_deposit(&accounts(2));
    contract.ft_transfer(&accounts(0), &accounts(1), 500).unwrap();
    contract.ft_transfer(&accounts(1), &accounts(2), 200).unwrap();
    contract.redeem(&accounts(2), TOTAL_SUPPLY * SHARE_PRICE - 200 * SHARE_PRICE).unwrap();
    let sum: u128 = (0..3).map(|i| contract.ft_balance_of(&accounts(i))).sum();
    assert_eq!(sum, contract.ft_total_supply());
    assert_eq!(contract.ft_total_supply(), TOTAL_SUPPLY - 200);
}

#[test]
fn transfer_errors() {
    let mut contract = new_shares(&accounts(0));
    assert_eq!(contract.ft_transfer(&accounts(0), &accounts(0), 1), Err(LedgerError::SelfTransfer));
    assert_eq!(contract.ft_transfer(&accounts(0), &accounts(1), 0), Err(LedgerError::ZeroAmount));
    assert_eq!(contract.ft_transfer(&accounts(3), &accounts(0), 1), Err(LedgerError::NotRegistered));
    assert_eq!(contract.ft_transfer(&accounts(0), &accounts(1), 1), Err(LedgerError::NotRegistered));
    assert!(contract.storage_deposit(&accounts(1)));
    assert!(!contract.storage_deposit(&accounts(1)));
    assert_eq!(contract.ft_transfer(&accounts(1), &accounts(0), 1), Err(LedgerError::InsufficientBalance));
    assert_eq!(contract.ft_balance_of(&accounts(0)), TOTAL_SUPPLY);
}

#[test]
fn metadata_of_a_new_ledger() {
    let contract = new_shares(&accounts(0));
    let m = contract.ft_metadata();
    assert_eq!(m.spec, SHARES_FT_METADATA_SPEC);
    assert_eq!(m.nft_contract_address, NFT_CONTRACT_ADDRESS);
    assert_eq!(m.nft_token_id, NFT_TOKEN_ID);
    assert_eq!(m.decimals, DECIMALS);
    assert_eq!(m.share_price, SHARE_PRICE);
    assert!(!m.released);
    assert_eq!(m.assert_valid(), Ok(()));
}

#[test]
fn metadata_validation_errors() {
    let mut m = new_shares(&accounts(0)).ft_metadata();
    m.spec = "other".to_string();
    assert_eq!(m.assert_valid(), Err(MetadataError::WrongSpec));
    m.spec = SHARES_FT_METADATA_SPEC.to_string();
    m.reference = Some("ipfs://x".to_string());
    assert_eq!(m.assert_valid(), Err(MetadataError::ReferenceMismatch));
    m.reference_hash = Some(vec![0u8; 31]);
    assert_eq!(m.assert_valid(), Err(MetadataError::HashLength));
    m.reference_hash = Some(vec![0u8; 32]);
    assert_eq!(m.assert_valid(), Ok(()));
    m.set_as_released();
    assert!(m.released);
}

#[test]
fn new_ledger_metadata_has_no_reference() {
    let m = new_shares(&accounts(0)).ft_metadata();
    assert_eq!(m.name, "Example NEAR fungible token");
    assert_eq!(m.symbol, "EXAMPLE");
    assert_eq!(m.icon.as_deref(), Some(DATA_IMAGE_SVG_NEAR_ICON));
    assert!(m.reference.is_none());
    assert!(m.reference_hash.is_none());
}
