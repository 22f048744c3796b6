use fractose::actions::{Action, Code};
use fractose::naming::{encode_str, get_nft_address, get_shares_contract_name, get_wrapper_name};
use fractose::registry::{Fractose, RegistryError, DEFAULT_FUNDING};

fn registry_id() -> String {
    "alice.testnet".to_string()
}

fn signer() -> String {
    "robert.testnet".to_string()
}

#[test]
fn securitize_nft() {
    let target_nft_contract = "nft.testnet".to_string();
    let nft_token_id = "0".to_string();

    let mut contract = Fractose::default();

    contract
        .securitize(
            target_nft_contract.clone(),
            nft_token_id.clone(),
            1000,
            18,
            10u128.pow(30),
            &signer(),
            &registry_id(),
        )
        .unwrap();

    let nft_address = get_nft_address(target_nft_contract.clone(), nft_token_id.clone());
    let expected_shares_contract =
        get_shares_contract_name(target_nft_contract.clone(), nft_token_id.clone(), registry_id());

    let saved_shares_address = contract.nft_to_shares_address.get(&nft_address);
    let saved_nft_address = contract.shares_to_nft_address.get(&expected_shares_contract);

    assert_eq!(saved_shares_address.expect("Saved shares address did not match"), expected_shares_contract);
    assert_eq!(saved_nft_address.expect("Saved NFT address did not match"), nft_address);
}

#[test]
fn derived_names() {
    assert_eq!(encode_str(&"a.b-c".to_string()), "612e622d63");
    assert_eq!(encode_str(&"\u{e9}".to_string()), "u0000e9");
    assert_eq!(get_nft_address("nft.testnet".to_string(), "7".to_string()), "nft.testnet/7");
    assert_eq!(
        get_shares_contract_name("nft.testnet".to_string(), "7".to_string(), registry_id()),
        "6e66742e746573746e6574-37.alice.testnet"
    );
    assert_eq!(get_wrapper_name(&"nft.testnet".to_string(), &registry_id()), "6e66742e746573746e6574.alice.testnet");
}

#[test]
fn securitize_with_divisible_price() {
    let mut contract = Fractose::default();
    let actions = contract
        .securitize("nft.testnet".to_string(), "0".to_string(), 1000, 18, 10u128.pow(30), &signer(), &registry_id())
        .unwrap();
    let shares = "6e66742e746573746e6574-30.alice.testnet".to_string();
    assert_eq!(
        actions,
        vec![
            Action::Spawn {
                account_id: "6e66742e746573746e6574.alice.testnet".to_string(),
                deposit: DEFAULT_FUNDING,
                code: Code::Wrapper,
            },
            Action::Spawn { account_id: shares.clone(), deposit: DEFAULT_FUNDING, code: Code::Shares },
            Action::InitShares {
                shares_contract: shares.clone(),
                nft_contract_address: "nft.testnet".to_string(),
                nft_token_id: "0".to_string(),
                owner_id: signer(),
                shares_count: 1000,
                decimals: 18,
                share_price: 10u128.pow(27),
            },
            Action::NftTransfer {
                nft_contract_address: "nft.testnet".to_string(),
                receiver_id: shares,
                token_id: "0".to_string(),
            },
        ]
    );
}

#[test]
fn securitize_with_fractional_price_fails() {
    let mut contract = Fractose::default();
    let r = contract.securitize(
        "nft.testnet".to_string(),
        "0".to_string(),
        1000,
        18,
        10u128.pow(30) + 1,
        &signer(),
        &registry_id(),
    );
    assert_eq!(r, Err(RegistryError::FractionalSharePrice));
    assert_eq!(contract.nft_to_shares_address.get(&"nft.testnet/0".to_string()), None);
}

#[test]
fn securitize_parameter_errors() {
    let mut contract = Fractose::default();
    let c = "nft.testnet".to_string();
    let t = "0".to_string();
    assert_eq!(contract.securitize(c.clone(), t.clone(), 10, 0, 0, &signer(), &registry_id()), Err(RegistryError::InvalidExitPrice));
    assert_eq!(contract.securitize(c.clone(), t.clone(), 0, 0, 10, &signer(), &registry_id()), Err(RegistryError::InvalidSharesCount));
    assert_eq!(
        contract.securitize(c.clone(), t.clone(), 10, 0, 10, &"Robert".to_string(), &registry_id()),
        Err(RegistryError::InvalidAccountId)
    );
    assert_eq!(
        contract.securitize(c.clone(), "x".repeat(30), 10, 0, 10, &signer(), &registry_id()),
        Err(RegistryError::InvalidAccountId)
    );
    assert_eq!(contract.contract_to_wrapper.get(&c), None);
}

#[test]
fn ensure_wrapper_is_idempotent() {
    let mut contract = Fractose::new(5, 3);
    let c = "nft.testnet".to_string();
    let (w1, a1) = contract.ensure_wrapper(&c, &registry_id()).unwrap();
    let (w2, a2) = contract.ensure_wrapper(&c, &registry_id()).unwrap();
    assert_eq!(w1, "6e66742e746573746e6574.alice.testnet");
    assert_eq!(w1, w2);
    assert_eq!(a1, vec![Action::Spawn { account_id: w1.clone(), deposit: 3, code: Code::Wrapper }]);
    assert_eq!(a2, vec![]);
    assert_eq!(contract.wrapper_to_contract.get(&w1), Some(c));
}

#[test]
fn a_wrapper_cannot_be_wrapped() {
    let mut contract = Fractose::default();
    let (w, _) = contract.ensure_wrapper(&"nft.testnet".to_string(), &registry_id()).unwrap();
    for _ in 0..3 {
        assert_eq!(contract.ensure_wrapper(&w, &registry_id()), Err(RegistryError::CannotWrapWrapper));
    }
    assert_eq!(
        contract.securitize(w.clone(), "0".to_string(), 10, 0, 10, &signer(), &registry_id()),
        Err(RegistryError::CannotWrapWrapper)
    );
    assert_eq!(contract.contract_to_wrapper.get(&w), None);
}

#[test]
fn second_securitization_reuses_the_wrapper() {
    let mut contract = Fractose::default();
    contract.securitize("nft.testnet".to_string(), "0".to_string(), 10, 0, 10, &signer(), &registry_id()).unwrap();
    let actions = contract
        .securitize("nft.testnet".to_string(), "1".to_string(), 10, 0, 10, &signer(), &registry_id())
        .unwrap();
    assert_eq!(actions.len(), 3);
    assert_eq!(
        contract.nft_to_shares_address.get(&"nft.testnet/1".to_string()),
        Some("6e66742e746573746e6574-31.alice.testnet".to_string())
    );
}

#[test]
fn similar_contract_ids_get_distinct_ledgers() {
    let mut contract = Fractose::default();
    contract.securitize("a.b".to_string(), "0".to_string(), 10, 0, 10, &signer(), &registry_id()).unwrap();
    contract.securitize("a-b".to_string(), "0".to_string(), 10, 0, 10, &signer(), &registry_id()).unwrap();
    assert_eq!(contract.nft_to_shares_address.get(&"a.b/0".to_string()), Some("612e62-30.alice.testnet".to_string()));
    assert_eq!(contract.nft_to_shares_address.get(&"a-b/0".to_string()), Some("612d62-30.alice.testnet".to_string()));
    assert_eq!(contract.shares_to_nft_address.get(&"612e62-30.alice.testnet".to_string()), Some("a.b/0".to_string()));
    assert_eq!(contract.shares_to_nft_address.get(&"612d62-30.alice.testnet".to_string()), Some("a-b/0".to_string()));
}

#[test]
fn similar_contract_ids_get_distinct_wrappers() {
    let mut contract = Fractose::default();
    let (w1, _) = contract.ensure_wrapper(&"a.b".to_string(), &registry_id()).unwrap();
    let (w2, _) = contract.ensure_wrapper(&"a-b".to_string(), &registry_id()).unwrap();
    assert_eq!(w1, "612e62.alice.testnet");
    assert_eq!(w2, "612d62.alice.testnet");
}

#[test]
fn records_made_under_another_registry_id_can_clash() {
    let mut contract = Fractose::default();
    contract.securitize("a.b".to_string(), "0".to_string(), 10, 0, 10, &signer(), &"x.near".to_string()).unwrap();
    assert_eq!(
        contract.securitize("a.b".to_string(), "0".to_string(), 10, 0, 10, &signer(), &"y.near".to_string()),
        Err(RegistryError::NameTaken)
    );
}

#[test]
fn invalid_contract_id_is_refused() {
    let mut contract = Fractose::default();
    assert_eq!(
        contract.securitize("a/b".to_string(), "0".to_string(), 10, 0, 10, &signer(), &registry_id()),
        Err(RegistryError::InvalidAccountId)
    );
}

#[test]
fn securitizing_the_same_asset_again_keeps_one_ledger() {
    let mut contract = Fractose::default();
    contract.securitize("nft.testnet".to_string(), "0".to_string(), 10, 0, 10, &signer(), &registry_id()).unwrap();
    let actions = contract
        .securitize("nft.testnet".to_string(), "0".to_string(), 10, 0, 10, &signer(), &registry_id())
        .unwrap();
    assert_eq!(actions.len(), 3);
    assert_eq!(
        contract.shares_to_nft_address.get(&"6e66742e746573746e6574-30.alice.testnet".to_string()),
        Some("nft.testnet/0".to_string())
    );
}

#[test]
fn account_id_rule() {
    let mut contract = Fractose::default();
    for bad in ["a", "-ab", "ab-", "a..b", "ab c"] {
        assert_eq!(
            contract.securitize("nft.testnet".to_string(), "0".to_string(), 10, 0, 10, &bad.to_string(), &registry_id()),
            Err(RegistryError::InvalidAccountId)
        );
    }
    assert!(contract
        .securitize("nft.testnet".to_string(), "0".to_string(), 10, 0, 10, &"a_b-c.d".to_string(), &registry_id())
        .is_ok());
}
