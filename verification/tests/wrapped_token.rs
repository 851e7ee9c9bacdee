use near_ibc::wrapped_token::{Contract, TokenMetadata, WrappedTokenError};

const CURRENT: &str = "0123456789abcdef.tf.transfer.near-ibc.testnet";
const IBC: &str = "near-ibc.testnet";
const FACTORY: &str = "tf.transfer.near-ibc.testnet";

fn metadata() -> TokenMetadata {
    TokenMetadata {
        spec: "ft-1.0.0".to_string(),
        name: "Atom".to_string(),
        symbol: "ATOM".to_string(),
        icon: None,
        reference: None,
        reference_hash: None,
        decimals: 6,
    }
}

fn token() -> Contract {
    Contract::new(CURRENT, metadata(), "transfer/channel-0".to_string(), "uatom".to_string(), IBC.to_string()).unwrap()
}

#[test]
fn wrapped_token_new_checks() {
    assert!(matches!(
        Contract::try_new("transfer.near-ibc.testnet", metadata(), "transfer/channel-0".to_string(), "uatom".to_string(), IBC.to_string()),
        Err(WrappedTokenError::ContractMustBeDeployedInSubAccountOfFactory)
    ));
    let mut bad = metadata();
    bad.spec = "ft-2.0.0".to_string();
    assert!(matches!(
        Contract::try_new(CURRENT, bad, "transfer/channel-0".to_string(), "uatom".to_string(), IBC.to_string()),
        Err(WrappedTokenError::InvalidMetadata)
    ));
    assert!(matches!(
        Contract::try_new(CURRENT, metadata(), "transfer/channel-0".to_string(), "uatom".to_string(), "other.testnet".to_string()),
        Err(WrappedTokenError::NearIbcAccountMustHaveSameRootAccount)
    ));
    assert!(matches!(
        Contract::try_new(CURRENT, metadata(), "transfer".to_string(), "uatom".to_string(), IBC.to_string()),
        Err(WrappedTokenError::InvalidTracePath)
    ));
    assert!(matches!(
        Contract::try_new(CURRENT, metadata(), "".to_string(), "uatom".to_string(), IBC.to_string()),
        Err(WrappedTokenError::TracePathMustNotBeEmpty)
    ));
    assert!(matches!(
        Contract::new_with_parsed_trace_path(CURRENT, metadata(), "transfer/channel-0".to_string(), "uatom".to_string(), IBC.to_string(), Some(true)),
        Err(WrappedTokenError::TracePathMustNotBeEmpty)
    ));
}

#[test]
fn metadata_validity() {
    let mut m = metadata();
    assert!(m.is_valid());
    m.reference = Some("https://example.com".to_string());
    assert!(!m.is_valid());
    m.reference_hash = Some(vec![0u8; 31]);
    assert!(!m.is_valid());
    m.reference_hash = Some(vec![0u8; 32]);
    assert!(m.is_valid());
}

#[test]
fn wrapped_token_new_registers_own_account() {
    let c = token();
    assert_eq!(c.ft_balance_of(CURRENT), 0);
    assert_eq!(c.ft_total_supply(), 0);
    assert_eq!(c.ft_balance_of("alice.testnet"), 0);
}

#[test]
fn wrapped_token_mint_by_parent() {
    let mut c = token();
    assert!(c.try_mint(FACTORY, "alice.testnet".to_string(), 1000, 0, 0).is_ok());
    assert_eq!(c.ft_balance_of("alice.testnet"), 1000);
    assert_eq!(c.ft_total_supply(), 1000);
    assert!(c.try_mint(FACTORY, "alice.testnet".to_string(), 5, 0, 0).is_ok());
    assert_eq!(c.ft_balance_of("alice.testnet"), 1005);
    assert_eq!(c.ft_total_supply(), 1005);
    assert!(matches!(c.try_mint(IBC, "alice.testnet".to_string(), 1, 0, 0), Err(WrappedTokenError::NotParentAccount)));
    assert!(matches!(
        c.try_mint(FACTORY, "bob.testnet".to_string(), u128::MAX, 0, 0),
        Err(WrappedTokenError::TotalSupplyOverflow)
    ));
    assert_eq!(c.ft_balance_of("bob.testnet"), 0);
    assert_eq!(c.ft_total_supply(), 1005);
}

#[test]
fn wrapped_token_mint_pays_for_registration() {
    let mut c = token();
    // Registering asks for the ledger's storage of one account at the byte cost.
    assert!(matches!(
        c.try_mint(FACTORY, "alice.testnet".to_string(), 10, 0, 1),
        Err(WrappedTokenError::NotEnoughStorageDeposit)
    ));
    assert_eq!(c.ft_balance_of("alice.testnet"), 0);
    let refund = c.try_mint(FACTORY, "alice.testnet".to_string(), 10, 1_000_000, 1).unwrap();
    assert!(refund < 1_000_000);
    assert_eq!(c.ft_balance_of("alice.testnet"), 10);
    // A registered account pays nothing: the whole deposit comes back.
    assert_eq!(c.try_mint(FACTORY, "alice.testnet".to_string(), 5, 7, 1), Ok(7));
    assert_eq!(c.ft_balance_of("alice.testnet"), 15);
    assert_eq!(c.ft_total_supply(), 15);
    // An overwhelming price saturates and no deposit covers it.
    assert!(matches!(
        c.try_mint(FACTORY, "bob.testnet".to_string(), 1, u128::MAX - 1, u128::MAX),
        Err(WrappedTokenError::NotEnoughStorageDeposit)
    ));
}

#[test]
fn wrapped_token_mint_balance_overflow() {
    let mut c = token();
    c.try_mint(FACTORY, "alice.testnet".to_string(), u128::MAX, 0, 0).unwrap();
    assert!(matches!(
        c.try_mint(FACTORY, "alice.testnet".to_string(), 1, 0, 0),
        Err(WrappedTokenError::BalanceOverflow)
    ));
    assert_eq!(c.ft_balance_of("alice.testnet"), u128::MAX);
}

#[test]
fn wrapped_token_request_transfer() {
    let mut c = token();
    c.try_mint(FACTORY, "alice.testnet".to_string(), 1000, 0, 0).unwrap();
    let req = c.try_request_transfer("alice.testnet".to_string(), "cosmos1abc".to_string(), 300, None).unwrap();
    assert_eq!(req.port_on_a, "transfer".to_string());
    assert_eq!(req.chan_on_a, "channel-0".to_string());
    assert_eq!(req.token_trace_path, "transfer/channel-0".to_string());
    assert_eq!(req.token_denom, "uatom".to_string());
    assert_eq!(req.amount, 300);
    assert_eq!(req.sender, "alice.testnet".to_string());
    assert_eq!(req.receiver, "cosmos1abc".to_string());
    assert_eq!(req.timeout_seconds, None);
    assert_eq!(c.get_pending_accounts(), vec!["alice.testnet".to_string()]);
    // The amount is locked in the contract's own account.
    assert_eq!(c.ft_balance_of("alice.testnet"), 700);
    assert_eq!(c.ft_balance_of(CURRENT), 300);
    assert_eq!(c.ft_total_supply(), 1000);
}

#[test]
fn wrapped_token_request_transfer_errors() {
    let mut c = token();
    c.try_mint(FACTORY, "alice.testnet".to_string(), 10, 0, 0).unwrap();
    assert!(matches!(
        c.try_request_transfer("alice.testnet".to_string(), "r".to_string(), 0, None),
        Err(WrappedTokenError::AmountMustBeGreaterThanZero)
    ));
    assert!(matches!(
        c.try_request_transfer("alice.testnet".to_string(), "r".to_string(), 11, None),
        Err(WrappedTokenError::NotEnoughBalance)
    ));
    assert!(matches!(
        c.try_request_transfer("carol.testnet".to_string(), "r".to_string(), 1, None),
        Err(WrappedTokenError::NotEnoughBalance)
    ));
    c.try_request_transfer("alice.testnet".to_string(), "r".to_string(), 4, None).unwrap();
    assert!(matches!(
        c.try_request_transfer("alice.testnet".to_string(), "r".to_string(), 1, None),
        Err(WrappedTokenError::PendingTransferRequestExists)
    ));
    assert_eq!(c.ft_balance_of("alice.testnet"), 6);
    assert_eq!(c.ft_balance_of(CURRENT), 4);
}

#[test]
fn wrapped_token_apply_burns() {
    let mut c = token();
    c.try_mint(FACTORY, "alice.testnet".to_string(), 10, 0, 0).unwrap();
    c.try_request_transfer("alice.testnet".to_string(), "r".to_string(), 10, Some(5)).unwrap();
    assert!(matches!(
        c.try_apply_transfer_request("eve.testnet", "transfer/channel-0".to_string(), "uatom".to_string(), "alice.testnet".to_string(), 10),
        Err(WrappedTokenError::NotNearIbcAccount)
    ));
    assert!(c.try_apply_transfer_request(IBC, "transfer/channel-0".to_string(), "uatom".to_string(), "alice.testnet".to_string(), 10).is_ok());
    assert_eq!(c.ft_balance_of("alice.testnet"), 0);
    assert_eq!(c.ft_balance_of(CURRENT), 0);
    assert_eq!(c.ft_total_supply(), 0);
    assert!(c.get_pending_accounts().is_empty());
}

#[test]
fn wrapped_token_cancel_restores() {
    let mut c = token();
    c.try_mint(FACTORY, "bob.testnet".to_string(), 10, 0, 0).unwrap();
    c.try_request_transfer("bob.testnet".to_string(), "r".to_string(), 4, Some(5)).unwrap();
    assert!(matches!(
        c.try_cancel_transfer_request(IBC, "transfer/channel-0".to_string(), "uatom".to_string(), "bob.testnet".to_string(), 5),
        Err(WrappedTokenError::PendingTransferRequestNotMatched)
    ));
    assert!(matches!(
        c.try_cancel_transfer_request(IBC, "transfer/channel-0".to_string(), "uatom".to_string(), "eve.testnet".to_string(), 4),
        Err(WrappedTokenError::NoPendingTransferRequest)
    ));
    assert!(c.try_cancel_transfer_request(IBC, "transfer/channel-0".to_string(), "uatom".to_string(), "bob.testnet".to_string(), 4).is_ok());
    assert_eq!(c.ft_balance_of("bob.testnet"), 10);
    assert_eq!(c.ft_balance_of(CURRENT), 0);
    assert_eq!(c.ft_total_supply(), 10);
    assert!(c.get_pending_accounts().is_empty());
    assert!(matches!(
        c.try_cancel_transfer_request(IBC, "transfer/channel-0".to_string(), "uatom".to_string(), "bob.testnet".to_string(), 4),
        Err(WrappedTokenError::NoPendingTransferRequest)
    ));
}

#[test]
fn wrapped_token_error_messages() {
    assert_eq!(WrappedTokenError::AccountBalanceTooLow.message(), "The account doesn't have enough balance");
    assert_eq!(WrappedTokenError::TotalSupplyOverflow.message(), "Total supply overflow");
    assert_eq!(WrappedTokenError::BalanceOverflow.message(), "Balance overflow");
    assert_eq!(WrappedTokenError::NotEnoughBalance.message(), "ERR_NOT_ENOUGH_BALANCE");
}

#[test]
fn wrapped_token_icon_by_parent() {
    let mut c = token();
    assert!(matches!(c.try_set_icon(IBC, 4, 1, "abcd".to_string()), Err(WrappedTokenError::NotParentAccount)));
    assert!(matches!(c.try_set_icon(FACTORY, 3, 1, "abcd".to_string()), Err(WrappedTokenError::NotEnoughDeposit)));
    assert!(c.try_set_icon(FACTORY, 4, 1, "abcd".to_string()).is_ok());
    assert_eq!(c.ft_metadata().icon, Some("abcd".to_string()));
    assert_eq!(c.near_ibc_account(), IBC.to_string());
}

#[test]
fn wrapped_token_pending_request_lookup() {
    let mut c = token();
    c.try_mint(FACTORY, "alice.testnet".to_string(), 10, 0, 0).unwrap();
    c.try_request_transfer("alice.testnet".to_string(), "cosmos1".to_string(), 2, None).unwrap();
    let r = c.get_pending_transfer_request_of(&"alice.testnet".to_string()).unwrap();
    assert_eq!(r.receiver, "cosmos1".to_string());
    assert!(c.get_pending_transfer_request_of(&"bob.testnet".to_string()).is_none());
}

#[test]
fn wrapped_token_ledger_lives_in_storage() {
    let _first = token();
    // The storage already registers the token's own account.
    assert!(matches!(
        Contract::try_new(CURRENT, metadata(), "transfer/channel-0".to_string(), "uatom".to_string(), IBC.to_string()),
        Err(WrappedTokenError::AccountAlreadyRegistered)
    ));
}

#[test]
fn wrapped_token_multi_hop_trace_path() {
    assert!(matches!(
        Contract::try_new(CURRENT, metadata(), "transfer/channel-0/transfer".to_string(), "uatom".to_string(), IBC.to_string()),
        Err(WrappedTokenError::InvalidTracePath)
    ));
    assert!(matches!(
        Contract::try_new(CURRENT, metadata(), " ".to_string(), "uatom".to_string(), IBC.to_string()),
        Err(WrappedTokenError::TracePathMustNotBeEmpty)
    ));
    let mut c = Contract::try_new(CURRENT, metadata(), "transfer/channel-1/transfer/channel-0".to_string(), "uatom".to_string(), IBC.to_string()).unwrap();
    c.try_mint(FACTORY, "alice.testnet".to_string(), 3, 0, 0).unwrap();
    let req = c.try_request_transfer("alice.testnet".to_string(), "r".to_string(), 3, None).unwrap();
    assert_eq!(req.port_on_a, "transfer".to_string());
    assert_eq!(req.chan_on_a, "channel-1".to_string());
}

#[test]
fn wrapped_token_accepted_calls() {
    let mut c = token();
    assert_eq!(c.mint(FACTORY, "alice.testnet".to_string(), 10, 0, 0), 0);
    let req = c.request_transfer("alice.testnet".to_string(), "r".to_string(), 6, None);
    assert_eq!(req.amount, 6);
    assert_eq!(c.ft_balance_of(CURRENT), 6);
    c.cancel_transfer_request(IBC, "transfer/channel-0".to_string(), "uatom".to_string(), "alice.testnet".to_string(), 6);
    assert_eq!(c.ft_balance_of("alice.testnet"), 10);
    c.request_transfer("alice.testnet".to_string(), "r".to_string(), 4, None);
    c.apply_transfer_request(IBC, "transfer/channel-0".to_string(), "uatom".to_string(), "alice.testnet".to_string(), 4);
    assert_eq!(c.ft_balance_of("alice.testnet"), 6);
    assert_eq!(c.ft_total_supply(), 6);
    c.set_icon(FACTORY, 4, 1, "abcd".to_string());
    assert_eq!(c.ft_metadata().icon, Some("abcd".to_string()));
}
