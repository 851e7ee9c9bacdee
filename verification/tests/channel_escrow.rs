use near_ibc::channel_escrow::{ChannelEscrowError, Contract, FtOnTransferMsg, OldContract};
use near_ibc::types::{AssetDenom, StorageMigration};
use near_ibc::view_map::ViewMap;

const CURRENT: &str = "channel-0.ef.transfer.near-ibc.testnet";
const IBC: &str = "near-ibc.testnet";

fn escrow_with_usdt() -> Contract {
    let mut c = Contract::try_new(CURRENT, IBC.to_string()).unwrap();
    c.try_register_asset(IBC, "usdt".to_string(), "usdt.token.testnet".to_string()).unwrap();
    c
}

fn msg() -> Option<FtOnTransferMsg> {
    Some(FtOnTransferMsg { receiver: "cosmos1xyz".to_string(), timeout_seconds: Some(600) })
}

#[test]
fn escrow_new_needs_sub_account() {
    assert!(matches!(
        Contract::try_new("near-ibc.testnet", IBC.to_string()),
        Err(ChannelEscrowError::ContractMustBeDeployedInSubAccount)
    ));
    let c = Contract::try_new(CURRENT, IBC.to_string()).unwrap();
    assert_eq!(c.near_ibc_account(), IBC.to_string());
    assert!(c.get_registered_assets().is_empty());
}

#[test]
fn escrow_register_asset_once() {
    let mut c = escrow_with_usdt();
    assert!(matches!(
        c.try_register_asset(IBC, "usdt".to_string(), "other.testnet".to_string()),
        Err(ChannelEscrowError::TokenContractAlreadyRegistered)
    ));
    assert!(matches!(
        c.try_register_asset("bob.testnet", "dai".to_string(), "dai.testnet".to_string()),
        Err(ChannelEscrowError::NotNearIbcAccount)
    ));
    let assets = c.get_registered_assets();
    assert_eq!(assets.len(), 1);
    assert_eq!(assets[0].token_contract, "usdt.token.testnet".to_string());
    assert_eq!(assets[0].asset_denom.trace_path, "".to_string());
    assert_eq!(assets[0].asset_denom.base_denom, "usdt".to_string());
}

#[test]
fn escrow_ft_on_transfer_records_request() {
    let mut c = escrow_with_usdt();
    let req = c.try_ft_on_transfer("usdt.token.testnet", CURRENT, "alice.testnet".to_string(), 100, msg()).unwrap();
    assert_eq!(req.port_on_a, "transfer".to_string());
    assert_eq!(req.chan_on_a, "channel-0".to_string());
    assert_eq!(req.token_trace_path, "".to_string());
    assert_eq!(req.token_denom, "usdt".to_string());
    assert_eq!(req.amount, 100);
    assert_eq!(req.sender, "alice.testnet".to_string());
    assert_eq!(req.receiver, "cosmos1xyz".to_string());
    assert_eq!(req.timeout_seconds, Some(600));
    assert_eq!(c.get_pending_accounts(), vec!["alice.testnet".to_string()]);
    let pending = c.get_pending_transfer_request_of(&"alice.testnet".to_string()).unwrap();
    assert_eq!(pending.amount, 100);
}

#[test]
fn escrow_ft_on_transfer_errors() {
    let mut c = escrow_with_usdt();
    assert!(matches!(
        c.try_ft_on_transfer("dai.testnet", CURRENT, "alice.testnet".to_string(), 1, msg()),
        Err(ChannelEscrowError::UnregisteredTokenContract)
    ));
    assert!(matches!(
        c.try_ft_on_transfer("usdt.token.testnet", CURRENT, "alice.testnet".to_string(), 1, None),
        Err(ChannelEscrowError::InvalidMsg)
    ));
    c.try_ft_on_transfer("usdt.token.testnet", CURRENT, "alice.testnet".to_string(), 1, msg()).unwrap();
    assert!(matches!(
        c.try_ft_on_transfer("usdt.token.testnet", CURRENT, "alice.testnet".to_string(), 1, msg()),
        Err(ChannelEscrowError::PendingTransferRequestExists)
    ));
}

#[test]
fn escrow_apply_transfer_request_settles() {
    let mut c = escrow_with_usdt();
    c.try_ft_on_transfer("usdt.token.testnet", CURRENT, "alice.testnet".to_string(), 100, msg()).unwrap();
    assert!(matches!(
        c.try_apply_transfer_request(IBC, "".to_string(), "usdt".to_string(), "alice.testnet".to_string(), 99),
        Err(ChannelEscrowError::PendingTransferRequestNotMatched)
    ));
    assert!(matches!(
        c.try_apply_transfer_request(IBC, "".to_string(), "dai".to_string(), "alice.testnet".to_string(), 100),
        Err(ChannelEscrowError::InvalidTokenDenom)
    ));
    assert!(matches!(
        c.try_apply_transfer_request("eve.testnet", "".to_string(), "usdt".to_string(), "alice.testnet".to_string(), 100),
        Err(ChannelEscrowError::NotNearIbcAccount)
    ));
    assert!(c.try_apply_transfer_request(IBC, "".to_string(), "usdt".to_string(), "alice.testnet".to_string(), 100).is_ok());
    assert!(c.get_pending_accounts().is_empty());
    assert!(matches!(
        c.try_apply_transfer_request(IBC, "".to_string(), "usdt".to_string(), "alice.testnet".to_string(), 100),
        Err(ChannelEscrowError::NoPendingTransferRequest)
    ));
}

#[test]
fn escrow_cancel_transfer_request_refunds_from_token_contract() {
    let mut c = escrow_with_usdt();
    c.try_ft_on_transfer("usdt.token.testnet", CURRENT, "bob.testnet".to_string(), 7, msg()).unwrap();
    let token = c.try_cancel_transfer_request(IBC, "".to_string(), "usdt".to_string(), "bob.testnet".to_string(), 7).unwrap();
    assert_eq!(token, "usdt.token.testnet".to_string());
    assert!(c.get_pending_transfer_request_of(&"bob.testnet".to_string()).is_none());
}

#[test]
fn escrow_do_transfer_needs_one_yocto() {
    let c = escrow_with_usdt();
    assert!(matches!(c.try_do_transfer(IBC, 0, "".to_string(), "usdt".to_string()), Err(ChannelEscrowError::RequiresOneYocto)));
    assert!(matches!(c.try_do_transfer(IBC, 1, "".to_string(), "dai".to_string()), Err(ChannelEscrowError::InvalidTokenDenom)));
    assert_eq!(c.try_do_transfer(IBC, 1, "".to_string(), "usdt".to_string()).unwrap(), "usdt.token.testnet".to_string());
}

#[test]
fn escrow_error_messages() {
    assert_eq!(ChannelEscrowError::InvalidTokenDenom.message(), "ERR_INVALID_TOKEN_DENOM");
    assert_eq!(ChannelEscrowError::NotNearIbcAccount.message(), "ERR_ONLY_NEAR_IBC_ACCOUNT_CAN_CALL_THIS_METHOD");
}

#[test]
fn escrow_migration_fills_denom_map() {
    let mut token_contracts: ViewMap<String, AssetDenom> = ViewMap::new();
    token_contracts.insert(
        "usdt.token.testnet".to_string(),
        AssetDenom { trace_path: "".to_string(), base_denom: "usdt".to_string() },
    );
    let old = OldContract { near_ibc_account: IBC.to_string(), token_contracts, pending_transfer_requests: ViewMap::new() };
    let c = Contract::migrate_state(old);
    assert_eq!(c.try_do_transfer(IBC, 1, "".to_string(), "usdt".to_string()).unwrap(), "usdt.token.testnet".to_string());
}

#[test]
fn escrow_accepted_calls() {
    let mut c = Contract::new(CURRENT, IBC.to_string());
    c.register_asset(IBC, "usdt".to_string(), "usdt.token.testnet".to_string());
    assert_eq!(c.do_transfer(IBC, 1, "".to_string(), "usdt".to_string()), "usdt.token.testnet".to_string());
    let req = c.ft_on_transfer("usdt.token.testnet", CURRENT, "alice.testnet".to_string(), 9, msg().unwrap());
    assert_eq!(req.amount, 9);
    assert_eq!(c.cancel_transfer_request(IBC, "".to_string(), "usdt".to_string(), "alice.testnet".to_string(), 9), "usdt.token.testnet".to_string());
    c.ft_on_transfer("usdt.token.testnet", CURRENT, "alice.testnet".to_string(), 3, msg().unwrap());
    c.apply_transfer_request(IBC, "".to_string(), "usdt".to_string(), "alice.testnet".to_string(), 3);
    assert!(c.get_pending_accounts().is_empty());
}
