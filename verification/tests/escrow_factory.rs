use near_ibc::deposit::{WasmStoreError, INIT_BALANCE_FOR_CHANNEL_ESCROW_CONTRACT};
use near_ibc::escrow_factory::{store_wasm_of_escrow_contract, Contract, EscrowFactoryError};

const CURRENT: &str = "ef.transfer.near-ibc.testnet";
const IBC: &str = "near-ibc.testnet";

#[test]
fn escrow_factory_creates_each_escrow_once() {
    let mut c = Contract::try_new(CURRENT).unwrap();
    let first = c.try_create_escrow(CURRENT, IBC, INIT_BALANCE_FOR_CHANNEL_ESCROW_CONTRACT + 5, "channel-0".to_string()).unwrap();
    assert_eq!(first.escrow_contract_id, Some("channel-0.ef.transfer.near-ibc.testnet".to_string()));
    assert_eq!(first.refundable_deposit, 5);
    let second = c.try_create_escrow(CURRENT, IBC, INIT_BALANCE_FOR_CHANNEL_ESCROW_CONTRACT, "channel-0".to_string()).unwrap();
    assert_eq!(second.escrow_contract_id, None);
    assert_eq!(second.refundable_deposit, 0);
}

#[test]
fn escrow_factory_checks_caller_and_account() {
    assert!(matches!(Contract::try_new("near-ibc.testnet"), Err(EscrowFactoryError::ContractMustBeDeployedInSubAccount)));
    let mut c = Contract::try_new(CURRENT).unwrap();
    assert!(matches!(
        c.try_create_escrow(CURRENT, "eve.testnet", INIT_BALANCE_FOR_CHANNEL_ESCROW_CONTRACT, "channel-0".to_string()),
        Err(EscrowFactoryError::NotAncestorAccount)
    ));
    assert_eq!(EscrowFactoryError::NotAncestorAccount.message(), "ERR_ONLY_UPPER_LEVEL_ACCOUNT_CAN_CALL_THIS_METHOD");
}

#[test]
fn escrow_wasm_is_stored_by_the_factory_itself() {
    let hash = store_wasm_of_escrow_contract(CURRENT, CURRENT, b"abc", 0, 100, 10, 1_030).unwrap();
    assert_eq!(hash, "\"DYu3G8aGTMBW1WrTw76zxQJQU4DHLw9MLyy7peG4LKkY\"".to_string());
    assert_eq!(store_wasm_of_escrow_contract(IBC, CURRENT, b"abc", 0, 100, 10, 1_030), Err(WasmStoreError::NotAllowed));
    assert_eq!(
        store_wasm_of_escrow_contract(CURRENT, CURRENT, b"abc", 0, 100, 10, 1_000),
        Err(WasmStoreError::NotEnoughAccountBalance(30))
    );
    assert!(store_wasm_of_escrow_contract(CURRENT, CURRENT, b"abc", 5, 100, 10, 0).is_ok());
    assert_eq!(WasmStoreError::NotAllowed.message(), "ERR_NOT_ALLOWED");
}

#[test]
fn escrow_factory_refuses_invalid_escrow_ids() {
    let mut c = Contract::try_new(CURRENT).unwrap();
    assert!(matches!(
        c.try_create_escrow(CURRENT, IBC, INIT_BALANCE_FOR_CHANNEL_ESCROW_CONTRACT, "Channel-0".to_string()),
        Err(EscrowFactoryError::InvalidEscrowContractId)
    ));
    let created = c.try_create_escrow(CURRENT, IBC, INIT_BALANCE_FOR_CHANNEL_ESCROW_CONTRACT, "channel-0".to_string()).unwrap();
    assert_eq!(created.escrow_contract_id, Some(format!("channel-0.{}", CURRENT)));
}

#[test]
fn escrow_factory_accepted_creation() {
    let mut c = Contract::new(CURRENT);
    let first = c.create_escrow(CURRENT, IBC, INIT_BALANCE_FOR_CHANNEL_ESCROW_CONTRACT + 2, "channel-3".to_string());
    assert_eq!(first.escrow_contract_id, Some("channel-3.ef.transfer.near-ibc.testnet".to_string()));
    assert_eq!(first.refundable_deposit, 2);
    assert_eq!(c.create_escrow(CURRENT, IBC, INIT_BALANCE_FOR_CHANNEL_ESCROW_CONTRACT, "channel-3".to_string()).escrow_contract_id, None);
}
