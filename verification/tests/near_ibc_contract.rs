use near_ibc::deposit::{GAS_FOR_COMPLEX_FUNCTION_CALL, GAS_FOR_SIMPLE_FUNCTION_CALL, INIT_BALANCE_FOR_CHANNEL_ESCROW_CONTRACT, STORAGE_DEPOSIT_FOR_MINT_TOKEN};
use near_ibc::near_ibc_contract::{
    assert_governance, assert_testnet, check_appchain_anchor, check_deliver_deposit, commitment_prefix, host_height,
    plan_transfer, try_plan_transfer, cancel_refused_transfer, try_cancel_refused_transfer, deliver_refund, NearEd25519Verifier, OctopusLposModule, OldContract, SignatureError, validate_message_signer, validator_set_change, NearIbcContract, NearIbcError, SendCoinsAction, SudoFunctions, TestnetFunctions, TransferModule,
    DEFAULT_TIMEOUT_SECONDS,
};
use near_ibc::ibc_store::{NearIbcStore, PortChannel};
use near_ibc::ordering::NearHeight;
use near_ibc::types::{ProcessingResult, StorageMigration, ValidatorKeyAndPower, VscPacketData};
use near_ibc::types::Ics20TransferRequest;
use near_ibc::wrapped_token::TokenMetadata;

const IBC: &str = "near-ibc.testnet";

fn contract() -> NearIbcContract {
    NearIbcContract::init(IBC, "registry.testnet".to_string())
}

fn request(timeout_seconds: Option<u64>) -> Ics20TransferRequest {
    Ics20TransferRequest {
        port_on_a: "transfer".to_string(),
        chan_on_a: "channel-0".to_string(),
        token_trace_path: "".to_string(),
        token_denom: "usdt".to_string(),
        amount: 5,
        sender: "alice.testnet".to_string(),
        receiver: "cosmos1".to_string(),
        timeout_seconds,
    }
}

#[test]
fn governance_and_testnet_checks() {
    assert!(assert_governance("gov.testnet", "gov.testnet").is_ok());
    assert!(matches!(assert_governance("eve.testnet", "gov.testnet"), Err(NearIbcError::NotGovernanceAccount)));
    assert!(assert_testnet("near-ibc.testnet").is_ok());
    assert!(matches!(assert_testnet("near-ibc.near"), Err(NearIbcError::NotTestnet)));
    assert_eq!(NearIbcError::NotGovernanceAccount.message(), "ERR_NOT_GOVERNANCE_ACCOUNT");
}

#[test]
fn deliver_deposit_check() {
    assert_eq!(check_deliver_deposit(100_000_000_000_000_000_000_000, 2), Ok(()));
    assert_eq!(check_deliver_deposit(99_999_999_999_999_999_999_999, 2), Err(100_000_000_000_000_000_000_000));
    assert_eq!(check_deliver_deposit(0, 0), Ok(()));
}

#[test]
fn commitment_prefix_and_host_height() {
    assert_eq!(commitment_prefix("ab"), vec![9u8, b'a', b'b', b',']);
    assert_eq!(host_height(42), Some(NearHeight::new(0, 42)));
    assert_eq!(host_height(0), None);
}

#[test]
fn transfer_plan_from_sub_account() {
    let plan = try_plan_transfer(IBC, "channel-0.ef.transfer.near-ibc.testnet", &request(None), 1_000).unwrap();
    assert_eq!(plan.timeout_timestamp, 1_000 + DEFAULT_TIMEOUT_SECONDS * 1_000_000_000);
    assert_eq!(plan.amount, 5);
    assert_eq!(plan.chan_on_a, "channel-0".to_string());
    let plan = try_plan_transfer(IBC, "x.near-ibc.testnet", &request(Some(3)), 7).unwrap();
    assert_eq!(plan.timeout_timestamp, 3_000_000_007);
    assert!(matches!(try_plan_transfer(IBC, "alice.testnet", &request(None), 0), Err(NearIbcError::NotSubAccount)));
    assert!(matches!(try_plan_transfer(IBC, "x.near-ibc.testnet", &request(Some(u64::MAX)), 0), Err(NearIbcError::TimeoutOverflow)));
    assert!(matches!(try_plan_transfer(IBC, "x.near-ibc.testnet", &request(Some(1)), u64::MAX), Err(NearIbcError::TimeoutOverflow)));
    assert!(matches!(try_plan_transfer(IBC, "alice.testnet", &request(Some(u64::MAX)), u64::MAX), Err(NearIbcError::NotSubAccount)));
}

fn metadata() -> TokenMetadata {
    TokenMetadata {
        spec: "ft-1.0.0".to_string(),
        name: "Atom".to_string(),
        symbol: "ATOM".to_string(),
        icon: None,
        reference: None,
        reference_hash: None,
        decimals: 6,
    }
}

#[test]
fn sudo_setup_wrapped_token() {
    let tp = "transfer/channel-0".to_string();
    let bd = "uatom".to_string();
    assert!(matches!(
        contract().try_setup_wrapped_token(IBC, "eve.testnet", GAS_FOR_COMPLEX_FUNCTION_CALL, u128::MAX / 2, 1, &tp, &bd, &metadata()),
        Err(NearIbcError::NotGovernanceAccount)
    ));
    assert!(matches!(
        contract().try_setup_wrapped_token(IBC, IBC, GAS_FOR_COMPLEX_FUNCTION_CALL - 1, u128::MAX / 2, 1, &tp, &bd, &metadata()),
        Err(NearIbcError::NotEnoughGas)
    ));
    assert!(matches!(
        contract().try_setup_wrapped_token(IBC, IBC, GAS_FOR_COMPLEX_FUNCTION_CALL, 1, 1, &tp, &bd, &metadata()),
        Err(NearIbcError::NotEnoughDeposit)
    ));
    let call = contract().try_setup_wrapped_token(IBC, IBC, GAS_FOR_COMPLEX_FUNCTION_CALL, u128::MAX / 2, 1, &tp, &bd, &metadata()).unwrap();
    assert_eq!(call.contract_id, "tf.transfer.near-ibc.testnet".to_string());
    assert_eq!(call.gas, GAS_FOR_COMPLEX_FUNCTION_CALL - GAS_FOR_SIMPLE_FUNCTION_CALL);
    assert_eq!(call.deposit, 3_500_000_000_000_000_000_000_000 + 32 + 36 + 22 + 9 + 32);
}

#[test]
fn sudo_setup_channel_escrow() {
    let call = contract().try_setup_channel_escrow(IBC, IBC, GAS_FOR_COMPLEX_FUNCTION_CALL, u128::MAX / 2, 10, &"channel-0".to_string()).unwrap();
    assert_eq!(call.contract_id, "ef.transfer.near-ibc.testnet".to_string());
    assert_eq!(call.deposit, INIT_BALANCE_FOR_CHANNEL_ESCROW_CONTRACT + 10 * (4 + 9 + 16));
    assert!(matches!(
        contract().try_setup_channel_escrow(IBC, IBC, GAS_FOR_COMPLEX_FUNCTION_CALL, 0, 10, &"channel-0".to_string()),
        Err(NearIbcError::NotEnoughDeposit)
    ));
}

#[test]
fn sudo_register_and_unregister_asset() {
    let call = contract().try_register_asset_for_channel(IBC, IBC, 1000, 2, &"channel-0".to_string(), &"usdt".to_string(), &"usdt.testnet".to_string()).unwrap();
    assert_eq!(call.contract_id, "channel-0.ef.transfer.near-ibc.testnet".to_string());
    assert_eq!(call.deposit, 2 * (4 + 4 + 4 + 12));
    assert!(matches!(
        contract().try_register_asset_for_channel(IBC, IBC, 1000, 2, &"channel-0".to_string(), &"x".to_string(), &"abc.tf.transfer.near-ibc.testnet".to_string()),
        Err(NearIbcError::InvalidTokenContractAccount)
    ));
    assert!(matches!(
        contract().try_register_asset_for_channel(IBC, IBC, 47, 2, &"channel-0".to_string(), &"usdt".to_string(), &"usdt.testnet".to_string()),
        Err(NearIbcError::NotEnoughDeposit)
    ));
    let call = contract().try_unregister_asset_from_channel(IBC, IBC, 1, &"channel-1".to_string()).unwrap();
    assert_eq!(call.contract_id, "channel-1.ef.transfer.near-ibc.testnet".to_string());
    assert_eq!(call.deposit, 0);
    assert!(matches!(contract().try_unregister_asset_from_channel(IBC, IBC, 2, &"channel-1".to_string()), Err(NearIbcError::RequiresOneYocto)));
    let call = contract().try_cancel_transfer_request_in_channel_escrow(IBC, IBC, 1, &"channel-2".to_string()).unwrap();
    assert_eq!(call.gas, 4 * GAS_FOR_SIMPLE_FUNCTION_CALL);
}

#[test]
fn appchain_anchor_caller() {
    assert_eq!(check_appchain_anchor("myappchain.registry.testnet", "registry.testnet").unwrap(), "myappchain".to_string());
    assert!(matches!(check_appchain_anchor("myappchain.other.testnet", "registry.testnet"), Err(NearIbcError::InvalidCaller)));
}

#[test]
fn transfer_module_routes_coins_through_escrows() {
    let m = TransferModule;
    assert_eq!(m.get_port(), "transfer".to_string());
    let escrow = m.get_escrow_account(IBC, "transfer", "channel-0").unwrap();
    assert_eq!(m.get_escrow_account(IBC, "transfer", "Channel-0"), None);
    assert_eq!(escrow, "channel-0.ef.transfer.near-ibc.testnet".to_string());
    let tp = "transfer/channel-1".to_string();
    let bd = "uatom".to_string();
    match m.send_coins_execute(IBC, &"alice.testnet".to_string(), &escrow, &tp, &bd, 42) {
        SendCoinsAction::ApplyTransferRequest { call, trace_path, base_denom, sender, amount } => {
            assert_eq!(call.contract_id, escrow);
            assert_eq!(call.deposit, 0);
            assert_eq!(call.gas, GAS_FOR_SIMPLE_FUNCTION_CALL);
            assert_eq!(trace_path, tp);
            assert_eq!(base_denom, bd);
            assert_eq!(sender, "alice.testnet".to_string());
            assert_eq!(amount, 42);
        },
        _ => panic!("expected a settlement in the receiving escrow"),
    }
    match m.send_coins_execute(IBC, &escrow, &"bob.testnet".to_string(), &tp, &bd, 7) {
        SendCoinsAction::DoTransfer { call, trace_path, base_denom, receiver, amount, extra_deposit } => {
            assert_eq!(call.contract_id, escrow);
            assert_eq!(call.deposit, 1);
            assert_eq!(call.gas, 4 * GAS_FOR_SIMPLE_FUNCTION_CALL);
            assert_eq!(trace_path, tp);
            assert_eq!(base_denom, bd);
            assert_eq!(receiver, "bob.testnet".to_string());
            assert_eq!(amount, 7);
            assert_eq!(extra_deposit, 1);
        },
        _ => panic!("expected a transfer out of the sending escrow"),
    }
    let mint = m.mint_coins_execute(IBC).unwrap();
    assert!(m.mint_coins_execute(&"a".repeat(60)).is_none());
    assert_eq!(mint.contract_id, "tf.transfer.near-ibc.testnet".to_string());
    assert_eq!(mint.deposit, STORAGE_DEPOSIT_FOR_MINT_TOKEN);
}

#[test]
fn contract_governance_and_history_length() {
    let mut c = contract();
    assert_eq!(c.version(), "0.1.0".to_string());
    assert!(c.assert_governance(IBC).is_ok());
    assert!(matches!(c.assert_governance("eve.testnet"), Err(NearIbcError::NotGovernanceAccount)));
    assert!(c.assert_testnet_governance(IBC, IBC).is_ok());
    assert!(matches!(c.assert_testnet_governance("near-ibc.near", "near-ibc.near"), Err(NearIbcError::NotTestnet)));
    assert!(matches!(c.try_set_max_length_of_ibc_events_history("eve.testnet", 1, 5), Err(NearIbcError::NotGovernanceAccount)));
    assert!(matches!(c.try_set_max_length_of_ibc_events_history(IBC, 0, 5), Err(NearIbcError::RequiresOneYocto)));
    assert!(c.try_set_max_length_of_ibc_events_history(IBC, 1, 5).is_ok());
    assert!(c.near_ibc_store().get_ibc_events_heights().is_empty());
}

fn test_client_id() -> String {
    "07-tendermint-0".to_string()
}

fn sorted_heights(c: &NearIbcContract) -> Vec<NearHeight> {
    let mut heights = c.near_ibc_store().get_client_consensus_heights(&test_client_id());
    heights.sort();
    heights
}

#[test]
fn test_clear_consensus_state_clear_by() {
    let account = "account.testnet";
    let mut c = NearIbcContract::init(account, account.to_string());
    let heights = vec![NearHeight::new(0, 1), NearHeight::new(0, 2), NearHeight::new(0, 3), NearHeight::new(0, 4)];
    for h in heights.iter() {
        c.near_ibc_store_mut().store_consensus_state(test_client_id(), *h);
    }
    assert_eq!(sorted_heights(&c), heights);

    let lt_height = NearHeight::new(0, 3);
    assert!(c.try_clear_consensus_state_by(account, account, &test_client_id(), Some(&lt_height), 100).is_ok());
    assert_eq!(sorted_heights(&c), vec![NearHeight::new(0, 3), NearHeight::new(0, 4)]);
    assert!(c.try_clear_consensus_state_by(account, account, &test_client_id(), None, 100).is_ok());
    assert_eq!(sorted_heights(&c), Vec::<NearHeight>::new());
}

#[test]
fn testnet_functions_refuse_mainnet_and_strangers() {
    let mut c = NearIbcContract::init("near-ibc.near", "registry.near".to_string());
    assert!(matches!(c.try_clear_ibc_store_counters("near-ibc.near", "near-ibc.near"), Err(NearIbcError::NotTestnet)));
    let mut c = contract();
    assert!(matches!(c.try_clear_ibc_store_counters(IBC, "eve.testnet"), Err(NearIbcError::NotGovernanceAccount)));
    assert!(matches!(
        c.try_clear_consensus_state_by(IBC, "eve.testnet", &"07-tendermint-9".to_string(), None, 10),
        Err(NearIbcError::NotGovernanceAccount)
    ));
    assert!(matches!(c.try_remove_connection(IBC, "eve.testnet", &"connection-0".to_string()), Err(NearIbcError::NotGovernanceAccount)));
}

#[test]
fn testnet_functions_clear_the_store() {
    let mut c = contract();
    c.near_ibc_store_mut().store_client_state("client-a".to_string());
    c.near_ibc_store_mut().store_consensus_state("client-a".to_string(), NearHeight::new(0, 5));
    c.near_ibc_store_mut().increase_client_counter();
    c.near_ibc_store_mut().store_connection("connection-0".to_string());
    c.near_ibc_store_mut().store_channel(PortChannel { port_id: "transfer".to_string(), channel_id: "channel-0".to_string() });
    c.near_ibc_store_mut().store_packet_commitment(PortChannel { port_id: "transfer".to_string(), channel_id: "channel-0".to_string() }, 3);
    assert!(c.try_clear_ibc_store_counters(IBC, IBC).is_ok());
    assert_eq!(c.near_ibc_store().client_counter(), 0);
    let (result, connections) = c.try_clear_connections(IBC, IBC, 10).unwrap();
    assert!(matches!(result, ProcessingResult::Done));
    assert_eq!(connections, vec!["connection-0".to_string()]);
    let sequences = c.try_remove_channel(IBC, IBC, &PortChannel { port_id: "transfer".to_string(), channel_id: "channel-0".to_string() }).unwrap();
    assert_eq!(sequences.0, vec![3]);
    let (result, clients) = c.try_clear_clients(IBC, IBC, 10).unwrap();
    assert!(matches!(result, ProcessingResult::Done));
    assert_eq!(clients.len(), 1);
    assert_eq!(clients[0].1, vec![NearHeight::new(0, 5)]);
    assert!(matches!(c.try_clear_ibc_events_history(IBC, IBC), Ok(ProcessingResult::Done)));
    let (result, channels) = c.try_clear_channels(IBC, IBC, 10).unwrap();
    assert!(matches!(result, ProcessingResult::Done));
    assert!(channels.is_empty());
    c.near_ibc_store_mut().store_client_state("client-b".to_string());
    assert_eq!(c.try_remove_client(IBC, IBC, &"client-b".to_string()).unwrap(), Vec::<NearHeight>::new());
    assert!(c.try_remove_raw_client(IBC, IBC, &"client-b".to_string()).is_ok());
}

fn base_point_key() -> Vec<u8> {
    let mut key = vec![0u8, 0x58];
    key.extend(std::iter::repeat(0x66u8).take(31));
    key
}

fn vsc_data(keys: Vec<Vec<u8>>) -> VscPacketData {
    VscPacketData {
        validator_pubkeys: keys.into_iter().map(|public_key| ValidatorKeyAndPower { public_key, power: 7 }).collect(),
        validator_set_id: 3,
        slash_acks: vec![vec![0x0a, 0xff], vec![]],
    }
}

#[test]
fn validator_set_change_strips_key_prefixes_and_hex_encodes_acks() {
    let change = validator_set_change("myappchain".to_string(), &vsc_data(vec![base_point_key()])).unwrap();
    assert_eq!(change.chain_id, "myappchain".to_string());
    assert_eq!(change.validator_set_id, 3);
    assert_eq!(change.validator_updates.len(), 1);
    assert_eq!(change.validator_updates[0].public_key, base_point_key()[1..].to_vec());
    assert_eq!(change.validator_updates[0].power, 7);
    assert_eq!(change.slash_acks, vec!["0aff".to_string(), "".to_string()]);
    assert!(matches!(
        validator_set_change("x".to_string(), &vsc_data(vec![base_point_key(), vec![0u8, 1, 2]])),
        Err(NearIbcError::InvalidPublicKey)
    ));
    assert!(matches!(validator_set_change("x".to_string(), &vsc_data(vec![vec![]])), Err(NearIbcError::InvalidPublicKey)));
}

#[test]
fn vsc_packets_come_from_appchain_anchors_only() {
    let c = contract();
    let change = c.try_send_vsc_packet("myappchain.registry.testnet", &vsc_data(vec![base_point_key()])).unwrap();
    assert_eq!(change.chain_id, "myappchain".to_string());
    let change = c.send_vsc_packet("myappchain.registry.testnet", &vsc_data(vec![base_point_key()]));
    assert_eq!(change.chain_id, "myappchain".to_string());
    assert_eq!(change.validator_updates.len(), 1);
    assert!(matches!(
        c.try_send_vsc_packet("myappchain.other.testnet", &vsc_data(vec![base_point_key()])),
        Err(NearIbcError::InvalidCaller)
    ));
    assert_eq!(c.try_create_client_for_appchain("myappchain.registry.testnet").unwrap(), "myappchain".to_string());
    assert!(matches!(c.try_create_client_for_appchain("eve.testnet"), Err(NearIbcError::InvalidCaller)));
}

#[test]
fn burning_coins_settles_the_callers_request() {
    let call = TransferModule.burn_coins_execute("usdt.tf.transfer.near-ibc.testnet");
    assert_eq!(call.contract_id, "usdt.tf.transfer.near-ibc.testnet".to_string());
    assert_eq!(call.deposit, 0);
    assert_eq!(call.gas, GAS_FOR_SIMPLE_FUNCTION_CALL);
}

#[test]
fn message_signers_are_account_ids() {
    assert!(validate_message_signer("relayer.testnet").is_ok());
    assert!(validate_message_signer("a1-b_c.near").is_ok());
    assert!(matches!(validate_message_signer("a"), Err(NearIbcError::InvalidSigner)));
    assert!(matches!(validate_message_signer("Relayer.testnet"), Err(NearIbcError::InvalidSigner)));
    assert!(matches!(validate_message_signer("relayer..testnet"), Err(NearIbcError::InvalidSigner)));
    assert!(matches!(validate_message_signer(".relayer"), Err(NearIbcError::InvalidSigner)));
    assert!(matches!(validate_message_signer("relayer-"), Err(NearIbcError::InvalidSigner)));
    assert!(matches!(validate_message_signer(&"a".repeat(65)), Err(NearIbcError::InvalidSigner)));
    assert!(validate_message_signer(&"a".repeat(64)).is_ok());
}

#[test]
fn transfer_requests_must_parse() {
    let from = "channel-0.ef.transfer.near-ibc.testnet";
    let mut short_channel = request(None);
    short_channel.chan_on_a = "ch-0".to_string();
    assert!(matches!(try_plan_transfer(IBC, from, &short_channel, 0), Err(NearIbcError::InvalidTransferRequest)));
    let mut bad_port = request(None);
    bad_port.port_on_a = "trans/fer".to_string();
    assert!(matches!(try_plan_transfer(IBC, from, &bad_port, 0), Err(NearIbcError::InvalidTransferRequest)));
    let mut blank_denom = request(None);
    blank_denom.token_denom = " \t".to_string();
    assert!(matches!(try_plan_transfer(IBC, from, &blank_denom, 0), Err(NearIbcError::InvalidTransferRequest)));
    let mut bad_trace = request(None);
    bad_trace.token_trace_path = "transfer".to_string();
    assert!(matches!(try_plan_transfer(IBC, from, &bad_trace, 0), Err(NearIbcError::InvalidTransferRequest)));
    let mut traced = request(None);
    traced.token_trace_path = "transfer/channel-1".to_string();
    assert!(try_plan_transfer(IBC, from, &traced, 0).is_ok());
    assert!(matches!(try_plan_transfer(IBC, "alice.testnet", &bad_port, 0), Err(NearIbcError::NotSubAccount)));
}

#[test]
fn refused_transfers_are_cancelled_at_the_caller() {
    let cancel = try_cancel_refused_transfer("usdt.tf.transfer.near-ibc.testnet", &request(None), false).unwrap().unwrap();
    assert_eq!(cancel.call.contract_id, "usdt.tf.transfer.near-ibc.testnet".to_string());
    assert_eq!(cancel.call.deposit, 0);
    assert_eq!(cancel.call.gas, 4 * GAS_FOR_SIMPLE_FUNCTION_CALL);
    let req = request(None);
    assert_eq!(cancel.trace_path, req.token_trace_path);
    assert_eq!(cancel.base_denom, req.token_denom);
    assert_eq!(cancel.sender_id, req.sender);
    assert_eq!(cancel.amount, req.amount);
    assert!(try_cancel_refused_transfer("usdt.tf.transfer.near-ibc.testnet", &request(None), true).unwrap().is_none());
    let mut bad_sender = request(None);
    bad_sender.sender = "Alice".to_string();
    assert!(matches!(try_cancel_refused_transfer("x.near-ibc.testnet", &bad_sender, false), Err(NearIbcError::InvalidAccountId)));
    assert!(try_cancel_refused_transfer("x.near-ibc.testnet", &bad_sender, true).unwrap().is_none());
}

#[test]
fn sudo_calls_need_valid_escrow_accounts() {
    let c = contract();
    assert!(matches!(
        c.try_unregister_asset_from_channel(IBC, IBC, 1, &"Channel-1".to_string()),
        Err(NearIbcError::InvalidAccountId)
    ));
    assert!(matches!(
        c.try_setup_channel_escrow(IBC, IBC, GAS_FOR_COMPLEX_FUNCTION_CALL, u128::MAX / 2, 10, &"ch".to_string()),
        Err(NearIbcError::InvalidChannelId)
    ));
    let long = "a".repeat(60);
    let c = NearIbcContract::init(&long, "registry.testnet".to_string());
    assert!(matches!(
        c.try_setup_channel_escrow(&long, &long, GAS_FOR_COMPLEX_FUNCTION_CALL, u128::MAX / 2, 10, &"channel-0".to_string()),
        Err(NearIbcError::InvalidAccountId)
    ));
}

#[test]
fn migration_keeps_governance_registry_and_store() {
    let mut store = NearIbcStore::new();
    store.store_client_state("client-a".to_string());
    let old = OldContract {
        near_ibc_store: store,
        governance_account: "gov.testnet".to_string(),
        appchain_registry_account: "registry.testnet".to_string(),
    };
    let c = NearIbcContract::migrate_state(old);
    assert!(c.assert_governance("gov.testnet").is_ok());
    assert!(c.try_create_client_for_appchain("app.registry.testnet").is_ok());
    assert_eq!(c.near_ibc_store().client_counter(), 0);
}

#[test]
fn ed25519_signatures_verify_with_the_host_function() {
    let signature = hex::decode("41C44494DAB13009BE73D2CCBD3A49677DDC1F26AD2823CE72833CE4B9603F77CA70A9E179272D92D28E8B2AE7006747C87AB1890362A50347EFF553F5EC4008").unwrap();
    let public_key = hex::decode("9C16937BF04CCE709FED52344C43634F1E7A05FC29DD41F48844C3588C7FE663").unwrap();
    assert_eq!(NearEd25519Verifier::verify(&public_key, b"Hello world!", &signature), Ok(()));
    assert_eq!(
        NearEd25519Verifier::verify(&public_key, b"Modified message!", &signature),
        Err(SignatureError::VerificationFailed)
    );
    assert_eq!(NearEd25519Verifier::verify(&public_key, b"Hello world!", &signature[1..]), Err(SignatureError::MalformedSignature));
    assert_eq!(NearEd25519Verifier::verify(&public_key[1..], b"Hello world!", &signature), Err(SignatureError::MalformedPublicKey));
}

#[test]
fn appchain_packets_go_on_to_the_anchor() {
    let m = OctopusLposModule::new("registry.testnet".to_string());
    let call = m.slash_validator("myappchain").unwrap();
    assert_eq!(call.contract_id, "myappchain.registry.testnet".to_string());
    assert_eq!(call.gas, 10 * GAS_FOR_SIMPLE_FUNCTION_CALL);
    assert_eq!(call.deposit, 0);
    assert_eq!(m.on_vsc_matured("myappchain").unwrap().gas, 6 * GAS_FOR_SIMPLE_FUNCTION_CALL);
    assert_eq!(m.distribute_reward("myappchain").unwrap().gas, 10 * GAS_FOR_SIMPLE_FUNCTION_CALL);
    assert!(matches!(m.slash_validator("My_Chain"), Err(NearIbcError::InvalidAnchorAccount)));
}

#[test]
fn accepted_calls_give_their_results() {
    let c = contract();
    let tp = "transfer/channel-0".to_string();
    let bd = "uatom".to_string();
    let call = c.setup_wrapped_token(IBC, IBC, GAS_FOR_COMPLEX_FUNCTION_CALL, u128::MAX / 2, 1, &tp, &bd, &metadata());
    assert_eq!(call.contract_id, "tf.transfer.near-ibc.testnet".to_string());
    let call = c.setup_channel_escrow(IBC, IBC, GAS_FOR_COMPLEX_FUNCTION_CALL, u128::MAX / 2, 10, &"channel-0".to_string());
    assert_eq!(call.contract_id, "ef.transfer.near-ibc.testnet".to_string());
    let call = c.register_asset_for_channel(IBC, IBC, 1000, 2, &"channel-0".to_string(), &"usdt".to_string(), &"usdt.testnet".to_string());
    assert_eq!(call.contract_id, "channel-0.ef.transfer.near-ibc.testnet".to_string());
    let call = c.unregister_asset_from_channel(IBC, IBC, 1, &"channel-1".to_string());
    assert_eq!(call.deposit, 0);
    let call = c.cancel_transfer_request_in_channel_escrow(IBC, IBC, 1, &"channel-2".to_string());
    assert_eq!(call.gas, 4 * GAS_FOR_SIMPLE_FUNCTION_CALL);
    let plan = plan_transfer(IBC, "x.near-ibc.testnet", &request(Some(3)), 7);
    assert_eq!(plan.timeout_timestamp, 3_000_000_007);
    let cancel = cancel_refused_transfer("x.near-ibc.testnet", &request(None), false).unwrap();
    assert_eq!(cancel.amount, 5);
    assert!(cancel_refused_transfer("x.near-ibc.testnet", &request(None), true).is_none());
    let registry = NearIbcContract::init(IBC, "registry.testnet".to_string());
    assert_eq!(registry.create_client_for_appchain("myappchain.registry.testnet"), "myappchain".to_string());
    // The deposit covers two messages; the call added 10 bytes at 1 per byte.
    assert_eq!(deliver_refund(100_000_000_000_000_000_000_000, 2, 0, 110, 100, 1), Some(100_000_000_000_000_000_000_000 - 10));
}

#[test]
fn testnet_functions_for_governance() {
    let account = "account.testnet";
    let mut c = NearIbcContract::init(account, account.to_string());
    for h in [NearHeight::new(0, 1), NearHeight::new(0, 2), NearHeight::new(0, 3)] {
        c.near_ibc_store_mut().store_consensus_state(test_client_id(), h);
    }
    let (_, removed) = c.clear_consensus_state_by(account, account, &test_client_id(), Some(&NearHeight::new(0, 2)), 100);
    assert_eq!(removed, vec![NearHeight::new(0, 1)]);
    c.clear_ibc_store_counters(account, account);
    assert!(matches!(c.clear_ibc_events_history(account, account), ProcessingResult::Done));
    let _ = c.set_max_length_of_ibc_events_history(account, 1, 7);
    assert!(matches!(c.try_set_max_length_of_ibc_events_history("eve.testnet", 1, 7), Err(NearIbcError::NotGovernanceAccount)));
}
