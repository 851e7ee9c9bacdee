use near_ibc::deposit::{WasmStoreError, INIT_BALANCE_FOR_WRAPPED_TOKEN_CONTRACT};
use near_ibc::token_factory::{store_wasm_of_token_contract, asset_id_of, metadata_borsh_size, Contract, OldContract, TokenFactoryError};
use near_ibc::types::{AssetDenom, CrossChainAsset, StorageMigration};
use near_ibc::view_map::ViewMap;
use near_ibc::wrapped_token::TokenMetadata;
use sha2::Digest;

const CURRENT: &str = "tf.transfer.near-ibc.testnet";
const IBC: &str = "near-ibc.testnet";

fn metadata() -> TokenMetadata {
    TokenMetadata {
        spec: "ft-1.0.0".to_string(),
        name: "Atom".to_string(),
        symbol: "ATOM".to_string(),
        icon: None,
        reference: None,
        reference_hash: None,
        decimals: 6,
    }
}

fn denom_bytes(trace_path: &str, base_denom: &str) -> Vec<u8> {
    let mut bytes = Vec::new();
    bytes.extend_from_slice(&(trace_path.len() as u32).to_le_bytes());
    bytes.extend_from_slice(trace_path.as_bytes());
    bytes.extend_from_slice(&(base_denom.len() as u32).to_le_bytes());
    bytes.extend_from_slice(base_denom.as_bytes());
    bytes
}

fn expected_asset_id(bytes: &[u8]) -> String {
    let digest = sha2::Sha256::digest(bytes);
    hex::encode(digest)[0..32].to_string()
}

#[test]
fn asset_id_is_leftmost_128_bits_in_hex() {
    let digest: Vec<u8> = (0u8..32).collect();
    assert_eq!(asset_id_of(&digest), "000102030405060708090a0b0c0d0e0f".to_string());
    let digest: Vec<u8> = vec![0xffu8; 32];
    assert_eq!(asset_id_of(&digest), "ffffffffffffffffffffffffffffffff".to_string());
}

#[test]
fn metadata_size_follows_borsh() {
    let m = metadata();
    // spec, name, symbol: 4 + len each; icon and reference: 1 each; hash: 1; decimals: 1.
    assert_eq!(metadata_borsh_size(&m), (4 + 8) + (4 + 4) + (4 + 4) + 1 + 1 + 1 + 1);
}

#[test]
fn factory_new_needs_sub_account() {
    assert!(matches!(Contract::try_new("near-ibc.testnet"), Err(TokenFactoryError::ContractMustBeDeployedInSubAccount)));
    assert!(Contract::try_new(CURRENT).is_ok());
}

#[test]
fn factory_setup_then_mint() {
    let mut c = Contract::try_new(CURRENT).unwrap();
    let deposit = INIT_BALANCE_FOR_WRAPPED_TOKEN_CONTRACT + 10_000_000_000_000_000_000 * 1_000;
    let s = c.try_setup_asset(CURRENT, IBC, deposit, 10_000_000_000_000_000_000, "transfer/channel-0".to_string(), "uatom".to_string(), metadata()).unwrap();
    let id = expected_asset_id(&denom_bytes("transfer/channel-0", "uatom"));
    assert_eq!(s.asset_id, id);
    assert_eq!(s.token_contract_id, format!("{}.{}", id, CURRENT));
    let size: u128 = 36 + (4 + 18) + (4 + 5) + metadata_borsh_size(&metadata());
    assert_eq!(s.minimum_deposit, INIT_BALANCE_FOR_WRAPPED_TOKEN_CONTRACT + 10_000_000_000_000_000_000 * (32 + size));
    let minted = c.try_mint_asset(CURRENT, IBC, "transfer/channel-0".to_string(), "uatom".to_string()).unwrap();
    assert_eq!(minted, s.token_contract_id);
    let assets = c.get_cross_chain_assets();
    assert_eq!(assets.len(), 1);
    assert_eq!(assets[0].asset_id, id);
    assert_eq!(assets[0].asset_denom.base_denom, "uatom".to_string());
    assert_eq!(assets[0].metadata.symbol, "ATOM".to_string());
}

#[test]
fn factory_setup_errors() {
    let mut c = Contract::try_new(CURRENT).unwrap();
    assert!(matches!(
        c.try_setup_asset(CURRENT, "eve.testnet", u128::MAX / 2, 1, "transfer/channel-0".to_string(), "uatom".to_string(), metadata()),
        Err(TokenFactoryError::NotAncestorAccount)
    ));
    assert!(matches!(
        c.try_setup_asset(CURRENT, IBC, 1, 1, "transfer/channel-0".to_string(), "uatom".to_string(), metadata()),
        Err(TokenFactoryError::NotEnoughDeposit)
    ));
    c.try_setup_asset(CURRENT, IBC, u128::MAX / 2, 1, "transfer/channel-0".to_string(), "uatom".to_string(), metadata()).unwrap();
    assert!(matches!(
        c.try_setup_asset(CURRENT, IBC, u128::MAX / 2, 1, "transfer/channel-0".to_string(), "uatom".to_string(), metadata()),
        Err(TokenFactoryError::AssetAlreadyRegistered)
    ));
    assert!(matches!(
        c.try_mint_asset(CURRENT, IBC, "transfer/channel-1".to_string(), "uatom".to_string()),
        Err(TokenFactoryError::AssetNeedsToBeSetup)
    ));
    assert!(matches!(
        c.try_mint_asset(CURRENT, "eve.testnet", "transfer/channel-0".to_string(), "uatom".to_string()),
        Err(TokenFactoryError::NotAncestorAccount)
    ));
}

#[test]
fn factory_retries_on_taken_asset_id() {
    let first = expected_asset_id(&denom_bytes("transfer/channel-0", "uatom"));
    let mut assets: ViewMap<String, CrossChainAsset<TokenMetadata>> = ViewMap::new();
    assets.insert(
        first.clone(),
        CrossChainAsset {
            asset_id: first.clone(),
            asset_denom: AssetDenom { trace_path: "transfer/channel-9".to_string(), base_denom: "other".to_string() },
            metadata: metadata(),
        },
    );
    let mut c = Contract::migrate_state(OldContract { asset_id_mappings: assets });
    let s = c.try_setup_asset(CURRENT, IBC, u128::MAX / 2, 1, "transfer/channel-0".to_string(), "uatom".to_string(), metadata()).unwrap();
    let mut retried = denom_bytes("transfer/channel-0", "uatom");
    retried.push(0);
    assert_eq!(s.asset_id, expected_asset_id(&retried));
    assert_ne!(s.asset_id, first);
    let minted = c.try_mint_asset(CURRENT, IBC, "transfer/channel-9".to_string(), "other".to_string()).unwrap();
    assert_eq!(minted, format!("{}.{}", first, CURRENT));
}

#[test]
fn factory_error_messages() {
    assert_eq!(TokenFactoryError::AssetNeedsToBeSetup.message(), "ERR_ASSET_NEEDS_TO_BE_SETUP");
    assert_eq!(TokenFactoryError::TooManyRetries.message(), "ERR_TOO_MANY_RETRIES_IN_ASSET_ID_GENERATION");
}

#[test]
fn token_wasm_is_stored_by_the_factory_itself() {
    let code = vec![1u8, 2, 3, 4];
    let hash = store_wasm_of_token_contract(CURRENT, CURRENT, &code, 2, 50, 3, 156).unwrap();
    assert_eq!(hash, "\"BjCqrgzAZ6nb4GJrsryiVAfdhrMAvK37F4zWdFWGcy7f\"".to_string());
    assert_eq!(store_wasm_of_token_contract("eve.testnet", CURRENT, &code, 2, 50, 3, 156), Err(WasmStoreError::NotAllowed));
    assert_eq!(
        store_wasm_of_token_contract(CURRENT, CURRENT, &code, 2, 50, 3, 155),
        Err(WasmStoreError::NotEnoughAccountBalance(1))
    );
}

#[test]
fn factory_refuses_token_contracts_with_invalid_ids() {
    let current = format!("{}.near-ibc.testnet", "t".repeat(20));
    let mut c = Contract::try_new(&current).unwrap();
    assert!(matches!(
        c.try_setup_asset(&current, IBC, u128::MAX / 2, 1, "transfer/channel-0".to_string(), "uatom".to_string(), metadata()),
        Err(TokenFactoryError::InvalidTokenContractId)
    ));
    assert!(c.get_cross_chain_assets().is_empty());
}

#[test]
fn factory_accepted_setup_and_mint() {
    let mut c = Contract::new(CURRENT);
    let s = c.setup_asset(CURRENT, IBC, u128::MAX / 2, 1, "transfer/channel-0".to_string(), "uatom".to_string(), metadata());
    assert_eq!(s.token_contract_id, format!("{}.{}", s.asset_id, CURRENT));
    assert_eq!(c.mint_asset(CURRENT, IBC, "transfer/channel-0".to_string(), "uatom".to_string()), s.token_contract_id);
}
