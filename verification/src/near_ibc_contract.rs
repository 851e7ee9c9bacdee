use vstd::prelude::*;
use vstd::string::*;
use crate::accounts::{
    assert_sub_account, escrow_factory_id, get_escrow_factory_contract_id, get_token_factory_contract_id, is_sub_account_of,
    token_factory_id, valid_account_id,
};
use crate::deposit::{
    GAS_FOR_COMPLEX_FUNCTION_CALL, GAS_FOR_SIMPLE_FUNCTION_CALL, INIT_BALANCE_FOR_CHANNEL_ESCROW_CONTRACT,
    INIT_BALANCE_FOR_WRAPPED_TOKEN_CONTRACT, MINIMUM_DEPOSIT_FOR_DELEVER_MSG, STORAGE_DEPOSIT_FOR_MINT_TOKEN,
};
use crate::ordering::NearHeight;
use crate::outside::{ed25519_signature_valid, ed25519_verify, channel_id_valid, parse_base_denom, parse_channel_id, parse_port_id, parse_trace_path, port_id_valid, trace_path_parse, parse_account_id, ed25519_key_accepted, hex_encode, hex_text, raw_ed25519_key_accepted, transfer_port_id};
use crate::text::{before_nth_char, after_nth_char, char_count, dot_prefixed, ends_with, join2, join_dot, same_text, text_after_nth, text_before_nth};
use crate::token_factory::{text_bytes, metadata_borsh_size, metadata_fits, placeholder_asset_size, setup_deposit, text_size};
use crate::types::{base_denom_readable, Ics20TransferRequest, ProcessingResult, StorageMigration, ValidatorKeyAndPower, VscPacketData};
use crate::ibc_store::{NearIbcStore, PortChannel};
use crate::view_map::KeyView;
use crate::wrapped_token::{byte_len, is_suffix, TokenMetadata};

verus! {

/// The timeout of a transfer whose request names none, in seconds.
pub const DEFAULT_TIMEOUT_SECONDS: u64 = 1000;

/// Why the IBC implementation refuses a call.
#[derive(Clone, Copy, Debug, PartialEq, Eq, Structural)]
pub enum NearIbcError {
    NotGovernanceAccount,
    NotTestnet,
    RequiresOneYocto,
    NotEnoughGas,
    NotEnoughDeposit,
    InvalidTokenContractAccount,
    NotSubAccount,
    InvalidCaller,
    InvalidPublicKey,
    InvalidSigner,
    InvalidTransferRequest,
    InvalidAccountId,
    InvalidChannelId,
    InvalidAnchorAccount,
    TimeoutOverflow,
}

impl NearIbcError {
    /// The message that the contract fails with.
    pub fn message(&self) -> (r: &'static str)
        ensures
            r@ == self.message_text(),
    {
        match self {
            NearIbcError::NotGovernanceAccount => "ERR_NOT_GOVERNANCE_ACCOUNT",
            NearIbcError::NotTestnet => "This method is only available on testnet",
            NearIbcError::RequiresOneYocto => "Requires attached deposit of exactly 1 yoctoNEAR",
            NearIbcError::NotEnoughGas => "ERR_NOT_ENOUGH_GAS",
            NearIbcError::NotEnoughDeposit => "ERR_NOT_ENOUGH_DEPOSIT",
            NearIbcError::InvalidTokenContractAccount => "ERR_INVALID_TOKEN_CONTRACT_ACCOUNT, must not be the cross chain assets received by near-ibc.",
            NearIbcError::NotSubAccount => "ERR_ONLY_SUB_ACCOUNT_CAN_CALL_THIS_METHOD",
            NearIbcError::InvalidCaller => "ERR_INVALID_CALLER, only octopus appchain anchor accounts can call this function.",
            NearIbcError::InvalidPublicKey => "ERR_INVALID_PUBLIC_KEY",
            NearIbcError::InvalidSigner => "Invalid signer",
            NearIbcError::InvalidTransferRequest => "ERR_INVALID_TRANSFER_REQUEST",
            NearIbcError::InvalidAccountId => "ERR_INVALID_ACCOUNT_ID",
            NearIbcError::InvalidChannelId => "ERR_INVALID_CHANNEL_ID",
            NearIbcError::InvalidAnchorAccount => "Invalid anchor account id",
            NearIbcError::TimeoutOverflow => "ERR_TIMEOUT_TIMESTAMP_OVERFLOW",
        }
    }

    /// The message of the error, as text.
    pub open spec fn message_text(&self) -> Seq<char> {
        match self {
            NearIbcError::NotGovernanceAccount => "ERR_NOT_GOVERNANCE_ACCOUNT"@,
            NearIbcError::NotTestnet => "This method is only available on testnet"@,
            NearIbcError::RequiresOneYocto => "Requires attached deposit of exactly 1 yoctoNEAR"@,
            NearIbcError::NotEnoughGas => "ERR_NOT_ENOUGH_GAS"@,
            NearIbcError::NotEnoughDeposit => "ERR_NOT_ENOUGH_DEPOSIT"@,
            NearIbcError::InvalidTokenContractAccount => "ERR_INVALID_TOKEN_CONTRACT_ACCOUNT, must not be the cross chain assets received by near-ibc."@,
            NearIbcError::NotSubAccount => "ERR_ONLY_SUB_ACCOUNT_CAN_CALL_THIS_METHOD"@,
            NearIbcError::InvalidCaller => "ERR_INVALID_CALLER, only octopus appchain anchor accounts can call this function."@,
            NearIbcError::InvalidPublicKey => "ERR_INVALID_PUBLIC_KEY"@,
            NearIbcError::InvalidSigner => "Invalid signer"@,
            NearIbcError::InvalidTransferRequest => "ERR_INVALID_TRANSFER_REQUEST"@,
            NearIbcError::InvalidAccountId => "ERR_INVALID_ACCOUNT_ID"@,
            NearIbcError::InvalidChannelId => "ERR_INVALID_CHANNEL_ID"@,
            NearIbcError::InvalidAnchorAccount => "Invalid anchor account id"@,
            NearIbcError::TimeoutOverflow => "ERR_TIMEOUT_TIMESTAMP_OVERFLOW"@,
        }
    }
}

/// A call to make on another contract: its account, the deposit to attach and
/// the gas to give it.
pub struct ContractCall {
    pub contract_id: String,
    pub deposit: u128,
    pub gas: u64,
}

/// Only the governance account may call.
pub fn assert_governance(predecessor_account_id: &str, governance_account: &str) -> (r: Result<(), NearIbcError>)
    ensures
        r is Ok <==> predecessor_account_id@ == governance_account@,
        r is Err ==> r == Err::<(), NearIbcError>(NearIbcError::NotGovernanceAccount),
{
    if same_text(predecessor_account_id, governance_account) {
        Ok(())
    } else {
        Err(NearIbcError::NotGovernanceAccount)
    }
}

/// The current account must be on testnet: its id ends with `.testnet`.
pub fn assert_testnet(current_account_id: &str) -> (r: Result<(), NearIbcError>)
    ensures
        r is Ok <==> is_suffix(".testnet"@, current_account_id@),
        r is Err ==> r == Err::<(), NearIbcError>(NearIbcError::NotTestnet),
{
    if ends_with(current_account_id, ".testnet") {
        Ok(())
    } else {
        Err(NearIbcError::NotTestnet)
    }
}

/// The call must come with exactly one yoctoNEAR.
pub fn assert_one_yocto(attached_deposit: u128) -> (r: Result<(), NearIbcError>)
    ensures
        r is Ok <==> attached_deposit == 1,
        r is Err ==> r == Err::<(), NearIbcError>(NearIbcError::RequiresOneYocto),
{
    if attached_deposit == 1 {
        Ok(())
    } else {
        Err(NearIbcError::RequiresOneYocto)
    }
}

/// The signer of a message must be a valid NEAR account id.
pub fn validate_message_signer(signer: &str) -> (r: Result<(), NearIbcError>)
    ensures
        r is Ok <==> valid_account_id(signer@),
        r is Err ==> r == Err::<(), NearIbcError>(NearIbcError::InvalidSigner),
{
    if parse_account_id(signer) {
        Ok(())
    } else {
        Err(NearIbcError::InvalidSigner)
    }
}

/// The deposit that comes with `deliver` must cover `n` messages.
pub fn check_deliver_deposit(attached_deposit: u128, n: usize) -> (r: Result<(), u128>)
    requires
        MINIMUM_DEPOSIT_FOR_DELEVER_MSG * n <= u128::MAX,
    ensures
        r is Ok <==> attached_deposit >= MINIMUM_DEPOSIT_FOR_DELEVER_MSG * n,
        r matches Err(needed) ==> needed == MINIMUM_DEPOSIT_FOR_DELEVER_MSG * n,
{
    let needed = crate::deposit::minimum_deposit_for_messages(n);
    if attached_deposit >= needed {
        Ok(())
    } else {
        Err(needed)
    }
}

/// What `deliver` refunds to its caller once its messages are handled: what the
/// attached deposit leaves after the storage that the call added and its extra
/// cost. Only for a deposit that covers the messages, as `check_deliver_deposit`
/// tells; the contract refuses any other call by failing before it handles them.
pub fn deliver_refund(
    attached_deposit: u128,
    n: usize,
    extra_deposit_cost: u128,
    storage_usage: u64,
    previously_used_bytes: u64,
    storage_byte_cost: u128,
) -> (r: Option<u128>)
    requires
        MINIMUM_DEPOSIT_FOR_DELEVER_MSG * n <= u128::MAX,
        attached_deposit >= MINIMUM_DEPOSIT_FOR_DELEVER_MSG * n,
        storage_usage > previously_used_bytes ==> storage_byte_cost * (storage_usage - previously_used_bytes)
            + extra_deposit_cost <= u128::MAX,
    ensures
        r == crate::deposit::refund_amount(attached_deposit, extra_deposit_cost, storage_usage, previously_used_bytes, storage_byte_cost),
{
    crate::deposit::refund_deposit(attached_deposit, extra_deposit_cost, storage_usage, previously_used_bytes, storage_byte_cost)
}

/// The prefix under which the counterparty finds the contract's commitments:
/// the byte 9, the bytes of the current account id, then a comma.
pub fn commitment_prefix(current_account_id: &str) -> (r: Vec<u8>)
    ensures
        r@ == seq![9u8] + current_account_id.spec_bytes() + seq![44u8],
{
    let mut prefix: Vec<u8> = Vec::new();
    prefix.push(9u8);
    let bytes = current_account_id.as_bytes();
    let mut i: usize = 0;
    while i < bytes.len()
        invariant
            i <= bytes@.len(),
            bytes@ == current_account_id.spec_bytes(),
            prefix@ == seq![9u8] + bytes@.subrange(0, i as int),
        decreases bytes.len() - i,
    {
        prefix.push(bytes[i]);
        i = i + 1;
        assert(prefix@ =~= seq![9u8] + bytes@.subrange(0, i as int));
    }
    prefix.push(44u8);
    assert(bytes@.subrange(0, bytes@.len() as int) =~= bytes@);
    prefix
}

/// The height of the host chain at a block: revision 0, the block height. A
/// height of zero is no height.
pub fn host_height(block_height: u64) -> (r: Option<NearHeight>)
    ensures
        r is Some <==> block_height > 0,
        r matches Some(h) ==> h.revision_number == 0 && h.revision_height == block_height,
{
    if block_height == 0 {
        None
    } else {
        Some(NearHeight::new(0, block_height))
    }
}

/// A transfer to send to another chain, as a request asks for it.
pub struct TransferPlan {
    pub port_on_a: String,
    pub chan_on_a: String,
    pub token_trace_path: String,
    pub token_denom: String,
    pub amount: u128,
    pub sender: String,
    pub receiver: String,
    /// When the transfer times out on the other chain, in nanoseconds.
    pub timeout_timestamp: u64,
}

/// The timeout of a request, in seconds.
pub open spec fn timeout_seconds_of(req: Ics20TransferRequest) -> u64 {
    match req.timeout_seconds {
        Some(t) => t,
        None => DEFAULT_TIMEOUT_SECONDS,
    }
}

/// The `ibc` crate reads the request: its port and channel ids are identifiers,
/// its trace path parses, and its base denomination is not white space only.
pub open spec fn transfer_request_parses(request: Ics20TransferRequest) -> bool {
    &&& port_id_valid(request.port_on_a@)
    &&& channel_id_valid(request.chan_on_a@)
    &&& trace_path_parse(request.token_trace_path@) is Some
    &&& base_denom_readable(request.token_denom@)
}

/// Why the IBC implementation refuses a transfer request: the caller is not a
/// sub-account of the current account (a channel escrow or a token contract),
/// the `ibc` crate cannot read the request's ids, trace path or denomination, or
/// the timeout overflows the block time.
pub open spec fn transfer_refusal(
    current_account_id: Seq<char>,
    predecessor_account_id: Seq<char>,
    request: Ics20TransferRequest,
    block_timestamp: u64,
) -> Option<NearIbcError> {
    if !is_sub_account_of(predecessor_account_id, current_account_id) {
        Some(NearIbcError::NotSubAccount)
    } else if !transfer_request_parses(request) {
        Some(NearIbcError::InvalidTransferRequest)
    } else if block_timestamp + timeout_seconds_of(request) * 1_000_000_000 > u64::MAX {
        Some(NearIbcError::TimeoutOverflow)
    } else {
        None
    }
}

/// `p` is the transfer that `request` asks for at `block_timestamp`.
pub open spec fn is_transfer_plan(p: TransferPlan, request: Ics20TransferRequest, block_timestamp: u64) -> bool {
    &&& p.port_on_a@ == request.port_on_a@
    &&& p.chan_on_a@ == request.chan_on_a@
    &&& p.token_trace_path@ == request.token_trace_path@
    &&& p.token_denom@ == request.token_denom@
    &&& p.amount == request.amount
    &&& p.sender@ == request.sender@
    &&& p.receiver@ == request.receiver@
    &&& p.timeout_timestamp == block_timestamp + timeout_seconds_of(request) * 1_000_000_000
}

/// The transfer that a request hands to the IBC implementation, for a request
/// that `try_plan_transfer` accepts; the contract refuses any other by failing.
/// The transfer times out the request's timeout after the block time.
pub fn plan_transfer(
    current_account_id: &str,
    predecessor_account_id: &str,
    request: &Ics20TransferRequest,
    block_timestamp: u64,
) -> (r: TransferPlan)
    requires
        transfer_refusal(current_account_id@, predecessor_account_id@, *request, block_timestamp) is None,
    ensures
        is_transfer_plan(r, *request, block_timestamp),
{
    let timeout_seconds = match request.timeout_seconds {
        Some(t) => t,
        None => DEFAULT_TIMEOUT_SECONDS,
    };
    assert(timeout_seconds * 1_000_000_000 <= u64::MAX) by (nonlinear_arith)
        requires
            block_timestamp + timeout_seconds * 1_000_000_000 <= u64::MAX,
            block_timestamp >= 0,
    ;
    TransferPlan {
        port_on_a: request.port_on_a.clone(),
        chan_on_a: request.chan_on_a.clone(),
        token_trace_path: request.token_trace_path.clone(),
        token_denom: request.token_denom.clone(),
        amount: request.amount,
        sender: request.sender.clone(),
        receiver: request.receiver.clone(),
        timeout_timestamp: block_timestamp + timeout_seconds * 1_000_000_000,
    }
}

/// Whether the IBC implementation takes a transfer request, and the transfer it
/// hands over when it does: only a sub-account of the current account may hand
/// one, the `ibc` crate must read its ids, trace path and denomination, and its
/// timeout must stay within the block time's range.
pub fn try_plan_transfer(
    current_account_id: &str,
    predecessor_account_id: &str,
    request: &Ics20TransferRequest,
    block_timestamp: u64,
) -> (r: Result<TransferPlan, NearIbcError>)
    ensures
        match transfer_refusal(current_account_id@, predecessor_account_id@, *request, block_timestamp) {
            Some(e) => r == Err::<TransferPlan, NearIbcError>(e),
            None => r matches Ok(p) && is_transfer_plan(p, *request, block_timestamp),
        },
{
    match assert_sub_account(current_account_id, predecessor_account_id) {
        Ok(()) => {},
        Err(_) => { return Err(NearIbcError::NotSubAccount); },
    }
    let trace_path_ok = match parse_trace_path(request.token_trace_path.as_str()) {
        Some(_) => true,
        None => false,
    };
    if !parse_port_id(request.port_on_a.as_str()) || !parse_channel_id(request.chan_on_a.as_str()) || !trace_path_ok
        || !parse_base_denom(request.token_denom.as_str()) {
        return Err(NearIbcError::InvalidTransferRequest);
    }
    let timeout_seconds = match request.timeout_seconds {
        Some(t) => t,
        None => DEFAULT_TIMEOUT_SECONDS,
    };
    match timeout_seconds.checked_mul(1_000_000_000) {
        Some(nanos) => {
            if block_timestamp.checked_add(nanos).is_none() {
                return Err(NearIbcError::TimeoutOverflow);
            }
        },
        None => {
            assert(block_timestamp + timeout_seconds_of(*request) * 1_000_000_000 > u64::MAX) by (nonlinear_arith)
                requires
                    timeout_seconds * 1_000_000_000 > u64::MAX,
                    timeout_seconds == timeout_seconds_of(*request),
                    block_timestamp >= 0,
            ;
            return Err(NearIbcError::TimeoutOverflow);
        },
    }
    Ok(plan_transfer(current_account_id, predecessor_account_id, request, block_timestamp))
}


/// The call that cancels a refused transfer request in the contract that handed
/// it over: the call itself and the arguments of `cancel_transfer_request`.
pub struct CancelTransferCall {
    pub call: ContractCall,
    pub trace_path: String,
    pub base_denom: String,
    pub sender_id: String,
    pub amount: u128,
}

/// The checked form of `cancel_refused_transfer`: the error with which the contract fails on a call that `cancel_refused_transfer` does not take, else what `cancel_refused_transfer` does.
///
/// What follows the IBC implementation's answer to a planned transfer (`sent`
/// tells whether `send_transfer` accepted it): nothing when it was sent, else
/// exactly one call of `cancel_transfer_request` on the contract that handed the
/// request over, the caller, with no deposit and the request's trace path,
/// denomination, sender and amount; the sender must then be a valid account id.
pub fn try_cancel_refused_transfer(
    predecessor_account_id: &str,
    request: &Ics20TransferRequest,
    sent: bool,
) -> (r: Result<Option<CancelTransferCall>, NearIbcError>)
    ensures
        sent ==> r == Ok::<Option<CancelTransferCall>, NearIbcError>(None),
        !sent && !valid_account_id(request.sender@)
            ==> r == Err::<Option<CancelTransferCall>, NearIbcError>(NearIbcError::InvalidAccountId),
        !sent && valid_account_id(request.sender@) ==> (r matches Ok(Some(c)) && {
            &&& c.call.contract_id@ == predecessor_account_id@
            &&& c.call.deposit == 0
            &&& c.call.gas == 4 * GAS_FOR_SIMPLE_FUNCTION_CALL
            &&& c.trace_path@ == request.token_trace_path@
            &&& c.base_denom@ == request.token_denom@
            &&& c.sender_id@ == request.sender@
            &&& c.amount == request.amount
        }),
{
    if sent {
        return Ok(None);
    }
    if !parse_account_id(request.sender.as_str()) {
        return Err(NearIbcError::InvalidAccountId);
    }
    Ok(Some(CancelTransferCall {
        call: ContractCall {
            contract_id: String::from_str(predecessor_account_id),
            deposit: 0,
            gas: 4 * GAS_FOR_SIMPLE_FUNCTION_CALL,
        },
        trace_path: request.token_trace_path.clone(),
        base_denom: request.token_denom.clone(),
        sender_id: request.sender.clone(),
        amount: request.amount,
    }))
}

/// What follows the IBC implementation's answer to a planned transfer (`sent`
/// tells whether `send_transfer` accepted it), for a request whose sender is a
/// valid account id whenever the transfer was refused (the contract fails on any
/// other): nothing when it was sent, else exactly one call of
/// `cancel_transfer_request` on the caller, with no deposit and the request's
/// trace path, denomination, sender and amount.
pub fn cancel_refused_transfer(
    predecessor_account_id: &str,
    request: &Ics20TransferRequest,
    sent: bool,
) -> (r: Option<CancelTransferCall>)
    requires
        !sent ==> valid_account_id(request.sender@),
    ensures
        sent ==> r is None,
        !sent ==> (r matches Some(c) && {
            &&& c.call.contract_id@ == predecessor_account_id@
            &&& c.call.deposit == 0
            &&& c.call.gas == 4 * GAS_FOR_SIMPLE_FUNCTION_CALL
            &&& c.trace_path@ == request.token_trace_path@
            &&& c.base_denom@ == request.token_denom@
            &&& c.sender_id@ == request.sender@
            &&& c.amount == request.amount
        }),
{
    try_cancel_refused_transfer(predecessor_account_id, request, sent).unwrap()
}

/// The deposit that setting up the escrow of a channel asks for.
pub open spec fn escrow_setup_deposit(storage_byte_cost: u128, channel_id: Seq<char>) -> int {
    INIT_BALANCE_FOR_CHANNEL_ESCROW_CONTRACT + storage_byte_cost * (text_size(channel_id) + 16)
}


/// The escrow of a channel: the channel id followed by the escrow factory.
pub open spec fn channel_escrow_id(current_account_id: Seq<char>, channel_id: Seq<char>) -> Seq<char> {
    channel_id + seq!['.'] + escrow_factory_id(current_account_id)
}

/// The escrow factory and the escrow of a channel are valid account ids.
pub open spec fn escrow_reachable(current_account_id: Seq<char>, channel_id: Seq<char>) -> bool {
    valid_account_id(escrow_factory_id(current_account_id)) && valid_account_id(channel_escrow_id(current_account_id, channel_id))
}

fn escrow_of_channel(current_account_id: &str, channel_id: &str) -> (r: Result<String, NearIbcError>)
    ensures
        r is Ok <==> escrow_reachable(current_account_id@, channel_id@),
        r matches Ok(id) ==> id@ == channel_escrow_id(current_account_id@, channel_id@),
        r is Err ==> r == Err::<String, NearIbcError>(NearIbcError::InvalidAccountId),
{
    let factory = match get_escrow_factory_contract_id(current_account_id) {
        Some(f) => f,
        None => { return Err(NearIbcError::InvalidAccountId); },
    };
    let escrow = join_dot(channel_id, factory.as_str());
    proof {
        assert(escrow@ =~= channel_escrow_id(current_account_id@, channel_id@));
    }
    if parse_account_id(escrow.as_str()) {
        Ok(escrow)
    } else {
        Err(NearIbcError::InvalidAccountId)
    }
}

/// The deposit that registering an asset of NEAR for a channel asks for: the
/// storage of its denomination, whose trace path is empty, and of its token
/// contract's id.
pub open spec fn register_asset_deposit(storage_byte_cost: u128, base_denom: Seq<char>, token_contract: Seq<char>) -> int {
    storage_byte_cost * (text_size(Seq::<char>::empty()) + text_size(base_denom) + byte_len(token_contract))
}




/// Only an appchain anchor may call: an account whose parent is the appchain
/// registry. Returns the appchain id, the first part of the caller's id.
pub fn check_appchain_anchor(predecessor_account_id: &str, appchain_registry_account: &str) -> (r: Result<String, NearIbcError>)
    requires
        char_count(predecessor_account_id@, '.') >= 1,
    ensures
        r is Ok <==> after_nth_char(predecessor_account_id@, '.', 0) == appchain_registry_account@,
        r matches Ok(id) ==> id@ == before_nth_char(predecessor_account_id@, '.', 0),
        r is Err ==> r == Err::<String, NearIbcError>(NearIbcError::InvalidCaller),
{
    let parent = match text_after_nth(predecessor_account_id, '.', 0) {
        Some(p) => p,
        None => String::new(),
    };
    if !same_text(parent.as_str(), appchain_registry_account) {
        return Err(NearIbcError::InvalidCaller);
    }
    match text_before_nth(predecessor_account_id, '.', 0) {
        Some(id) => Ok(id),
        None => Ok(String::new()),
    }
}

/// A validator of an appchain in a change of its validator set: its Ed25519 key
/// and its voting power.
pub struct ValidatorUpdate {
    pub public_key: Vec<u8>,
    pub power: u64,
}

/// A change of the validator set of an appchain, as the IBC implementation sends
/// it: the appchain, the validators, the id of the set, and the slash
/// acknowledgements in hexadecimal.
pub struct ValidatorSetChange {
    pub chain_id: String,
    pub validator_updates: Vec<ValidatorUpdate>,
    pub validator_set_id: u64,
    pub slash_acks: Vec<String>,
}

/// A validator's key, once its prefix byte is dropped, is an Ed25519 key.
pub open spec fn validator_key_valid(public_key: Seq<u8>) -> bool {
    public_key.len() >= 1 && ed25519_key_accepted(public_key.subrange(1, public_key.len() as int))
}

/// `c` is the change of the validator set of `chain_id` that `data` asks for:
/// each key without its prefix byte, each slash acknowledgement in hexadecimal.
pub open spec fn is_validator_set_change(c: ValidatorSetChange, chain_id: Seq<char>, data: VscPacketData) -> bool {
    &&& c.chain_id@ == chain_id
    &&& c.validator_set_id == data.validator_set_id
    &&& c.validator_updates@.len() == data.validator_pubkeys@.len()
    &&& forall|i: int| 0 <= i < data.validator_pubkeys@.len() ==> {
        let k = data.validator_pubkeys@[i].public_key@;
        &&& (#[trigger] c.validator_updates@[i]).public_key@ == k.subrange(1, k.len() as int)
        &&& c.validator_updates@[i].power == data.validator_pubkeys@[i].power
    }
    &&& c.slash_acks@.len() == data.slash_acks@.len()
    &&& forall|i: int| 0 <= i < data.slash_acks@.len() ==> (#[trigger] c.slash_acks@[i])@ == hex_text(data.slash_acks@[i]@)
}

/// The change of the validator set of `chain_id` that `data` asks for: each key
/// without its prefix byte, each slash acknowledgement in hexadecimal. A key that
/// is not an Ed25519 key once its prefix byte is dropped is refused.
pub fn validator_set_change(chain_id: String, data: &VscPacketData) -> (r: Result<ValidatorSetChange, NearIbcError>)
    ensures
        r is Ok <==> forall|i: int| 0 <= i < data.validator_pubkeys@.len()
            ==> validator_key_valid(#[trigger] data.validator_pubkeys@[i].public_key@),
        r is Err ==> r == Err::<ValidatorSetChange, NearIbcError>(NearIbcError::InvalidPublicKey),
        r matches Ok(c) ==> is_validator_set_change(c, chain_id@, *data),
{
    let mut updates: Vec<ValidatorUpdate> = Vec::new();
    let mut i: usize = 0;
    while i < data.validator_pubkeys.len()
        invariant
            i <= data.validator_pubkeys@.len(),
            updates@.len() == i,
            forall|j: int| 0 <= j < i ==> validator_key_valid(#[trigger] data.validator_pubkeys@[j].public_key@),
            forall|j: int| 0 <= j < i ==> {
                let k = data.validator_pubkeys@[j].public_key@;
                &&& (#[trigger] updates@[j]).public_key@ == k.subrange(1, k.len() as int)
                &&& updates@[j].power == data.validator_pubkeys@[j].power
            },
        decreases data.validator_pubkeys@.len() - i,
    {
        let v: &ValidatorKeyAndPower = &data.validator_pubkeys[i];
        if v.public_key.len() == 0 {
            return Err(NearIbcError::InvalidPublicKey);
        }
        let key = slice_from(v.public_key.as_slice(), 1);
        if !raw_ed25519_key_accepted(key.as_slice()) {
            return Err(NearIbcError::InvalidPublicKey);
        }
        updates.push(ValidatorUpdate { public_key: key, power: v.power });
        i = i + 1;
    }
    let mut acks: Vec<String> = Vec::new();
    let mut j: usize = 0;
    while j < data.slash_acks.len()
        invariant
            j <= data.slash_acks@.len(),
            acks@.len() == j,
            forall|l: int| 0 <= l < j ==> (#[trigger] acks@[l])@ == hex_text(data.slash_acks@[l]@),
        decreases data.slash_acks@.len() - j,
    {
        acks.push(hex_encode(data.slash_acks[j].as_slice()));
        j = j + 1;
    }
    Ok(ValidatorSetChange { chain_id, validator_updates: updates, validator_set_id: data.validator_set_id, slash_acks: acks })
}

/// The bytes of `s` from `start` on.
fn slice_from(s: &[u8], start: usize) -> (r: Vec<u8>)
    requires
        start <= s@.len(),
    ensures
        r@ == s@.subrange(start as int, s@.len() as int),
{
    let mut r: Vec<u8> = Vec::new();
    let mut i: usize = start;
    while i < s.len()
        invariant
            start <= i <= s@.len(),
            r@ == s@.subrange(start as int, i as int),
        decreases s@.len() - i,
    {
        r.push(s[i]);
        i = i + 1;
        assert(r@ =~= s@.subrange(start as int, i as int));
    }
    r
}

/// The functions of the IBC implementation that only its governance account may call.
pub trait SudoFunctions {
    spec fn governance(&self) -> Seq<char>;

    /// The checked form of `setup_wrapped_token`: the error with which the contract fails on a call that `setup_wrapped_token` does not take, else what `setup_wrapped_token` does.
    ///
    /// Sets up the token contract of an asset through the token factory; only the
    /// governance account may ask, with enough gas and a deposit that covers what the
    /// token factory asks for.
    fn try_setup_wrapped_token(
        &self,
        current_account_id: &str,
        predecessor_account_id: &str,
        prepaid_gas: u64,
        attached_deposit: u128,
        storage_byte_cost: u128,
        trace_path: &String,
        base_denom: &String,
        metadata: &TokenMetadata,
    ) -> (r: Result<ContractCall, NearIbcError>)
        requires
            setup_deposit(storage_byte_cost, trace_path@, base_denom@, *metadata) <= u128::MAX,
            byte_len(trace_path@) <= u32::MAX,
            byte_len(base_denom@) <= u32::MAX,
            metadata_fits(*metadata),
        ;

    /// The checked form of `setup_channel_escrow`: the error with which the contract fails on a call that `setup_channel_escrow` does not take, else what `setup_channel_escrow` does.
    ///
    /// Sets up the escrow of a channel through the escrow factory; only the
    /// governance account may ask, with enough gas and a deposit that covers the
    /// escrow's balance and the storage of the channel id.
    fn try_setup_channel_escrow(
        &self,
        current_account_id: &str,
        predecessor_account_id: &str,
        prepaid_gas: u64,
        attached_deposit: u128,
        storage_byte_cost: u128,
        channel_id: &String,
    ) -> (r: Result<ContractCall, NearIbcError>)
        requires
            escrow_setup_deposit(storage_byte_cost, channel_id@) <= u128::MAX,
            byte_len(channel_id@) <= u32::MAX,
        ;

    /// The checked form of `register_asset_for_channel`: the error with which the contract fails on a call that `register_asset_for_channel` does not take, else what `register_asset_for_channel` does.
    ///
    /// Registers a token contract of NEAR for a channel in the channel's escrow; only
    /// the governance account may ask, for a token contract that is not one of the
    /// cross-chain assets of this account, with a deposit that covers the storage.
    fn try_register_asset_for_channel(
        &self,
        current_account_id: &str,
        predecessor_account_id: &str,
        attached_deposit: u128,
        storage_byte_cost: u128,
        channel_id: &String,
        base_denom: &String,
        token_contract: &String,
    ) -> (r: Result<ContractCall, NearIbcError>)
        requires
            register_asset_deposit(storage_byte_cost, base_denom@, token_contract@) <= u128::MAX,
            byte_len(base_denom@) <= u32::MAX,
            byte_len(token_contract@) <= u32::MAX,
        ;

    /// The checked form of `unregister_asset_from_channel`: the error with which the contract fails on a call that `unregister_asset_from_channel` does not take, else what `unregister_asset_from_channel` does.
    ///
    /// Unregisters an asset of NEAR from a channel's escrow; only the governance
    /// account may ask, with exactly one yoctoNEAR.
    fn try_unregister_asset_from_channel(
        &self,
        current_account_id: &str,
        predecessor_account_id: &str,
        attached_deposit: u128,
        channel_id: &String,
    ) -> (r: Result<ContractCall, NearIbcError>)
        ;

    /// The checked form of `cancel_transfer_request_in_channel_escrow`: the error with which the contract fails on a call that `cancel_transfer_request_in_channel_escrow` does not take, else what `cancel_transfer_request_in_channel_escrow` does.
    ///
    /// Cancels a pending transfer request in a channel's escrow; only the governance
    /// account may ask, with exactly one yoctoNEAR.
    fn try_cancel_transfer_request_in_channel_escrow(
        &self,
        current_account_id: &str,
        predecessor_account_id: &str,
        attached_deposit: u128,
        channel_id: &String,
    ) -> (r: Result<ContractCall, NearIbcError>)
        ;

    /// The call that sets up the token contract of an asset, for a caller, gas and
    /// deposit that `try_setup_wrapped_token` accepts; the contract refuses any
    /// other call by failing.
    fn setup_wrapped_token(
        &self,
        current_account_id: &str,
        predecessor_account_id: &str,
        prepaid_gas: u64,
        attached_deposit: u128,
        storage_byte_cost: u128,
        trace_path: &String,
        base_denom: &String,
        metadata: &TokenMetadata,
    ) -> (r: ContractCall)
        requires
            setup_deposit(storage_byte_cost, trace_path@, base_denom@, *metadata) <= u128::MAX,
            byte_len(trace_path@) <= u32::MAX,
            byte_len(base_denom@) <= u32::MAX,
            metadata_fits(*metadata),
            predecessor_account_id@ == self.governance(),
            prepaid_gas >= GAS_FOR_COMPLEX_FUNCTION_CALL,
            attached_deposit >= setup_deposit(storage_byte_cost, trace_path@, base_denom@, *metadata),
            valid_account_id(token_factory_id(current_account_id@)),
        ;

    /// The call that sets up the escrow of a channel, for a caller, gas, deposit
    /// and channel id that `try_setup_channel_escrow` accepts; the contract
    /// refuses any other call by failing.
    fn setup_channel_escrow(
        &self,
        current_account_id: &str,
        predecessor_account_id: &str,
        prepaid_gas: u64,
        attached_deposit: u128,
        storage_byte_cost: u128,
        channel_id: &String,
    ) -> (r: ContractCall)
        requires
            escrow_setup_deposit(storage_byte_cost, channel_id@) <= u128::MAX,
            byte_len(channel_id@) <= u32::MAX,
            predecessor_account_id@ == self.governance(),
            prepaid_gas >= GAS_FOR_COMPLEX_FUNCTION_CALL,
            attached_deposit >= escrow_setup_deposit(storage_byte_cost, channel_id@),
            valid_account_id(escrow_factory_id(current_account_id@)),
            channel_id_valid(channel_id@),
        ;

    /// The call that registers a token contract for a channel, for a caller,
    /// token contract and deposit that `try_register_asset_for_channel` accepts;
    /// the contract refuses any other call by failing.
    fn register_asset_for_channel(
        &self,
        current_account_id: &str,
        predecessor_account_id: &str,
        attached_deposit: u128,
        storage_byte_cost: u128,
        channel_id: &String,
        base_denom: &String,
        token_contract: &String,
    ) -> (r: ContractCall)
        requires
            register_asset_deposit(storage_byte_cost, base_denom@, token_contract@) <= u128::MAX,
            byte_len(base_denom@) <= u32::MAX,
            byte_len(token_contract@) <= u32::MAX,
            predecessor_account_id@ == self.governance(),
            !is_sub_account_of(token_contract@, current_account_id@),
            attached_deposit >= register_asset_deposit(storage_byte_cost, base_denom@, token_contract@),
            escrow_reachable(current_account_id@, channel_id@),
        ;

    /// The call that unregisters an asset from a channel's escrow, for a caller and
    /// deposit that `try_unregister_asset_from_channel` accepts; the contract
    /// refuses any other call by failing.
    fn unregister_asset_from_channel(
        &self,
        current_account_id: &str,
        predecessor_account_id: &str,
        attached_deposit: u128,
        channel_id: &String,
    ) -> (r: ContractCall)
        requires
            predecessor_account_id@ == self.governance(),
            attached_deposit == 1,
            escrow_reachable(current_account_id@, channel_id@),
        ;

    /// The call that cancels a pending transfer request in a channel's escrow, for
    /// a caller and deposit that `try_cancel_transfer_request_in_channel_escrow`
    /// accepts; the contract refuses any other call by failing.
    fn cancel_transfer_request_in_channel_escrow(
        &self,
        current_account_id: &str,
        predecessor_account_id: &str,
        attached_deposit: u128,
        channel_id: &String,
    ) -> (r: ContractCall)
        requires
            predecessor_account_id@ == self.governance(),
            attached_deposit == 1,
            escrow_reachable(current_account_id@, channel_id@),
        ;
}

/// The IBC implementation: its bookkeeping, its governance account, and the
/// appchain registry whose anchors may create clients and send validator sets.
pub struct NearIbcContract {
    near_ibc_store: NearIbcStore,
    governance_account: String,
    appchain_registry_account: String,
}

impl NearIbcContract {
    pub closed spec fn wf(&self) -> bool {
        self.near_ibc_store.wf()
    }

    /// The appchain registry account.
    pub closed spec fn registry(&self) -> Seq<char> {
        self.appchain_registry_account@
    }

    /// A new IBC implementation, governed by its own account.
    pub fn init(current_account_id: &str, appchain_registry_account: String) -> (r: NearIbcContract)
        ensures
            r.wf(),
            r.ibc_store().wf(),
            r.governance() == current_account_id@,
            r.registry() == appchain_registry_account@,
            r.ibc_store().client_ids() == Set::<Seq<char>>::empty(),
            r.ibc_store().history().max() == u64::MAX,
    {
        NearIbcContract {
            near_ibc_store: NearIbcStore::new(),
            governance_account: String::from_str(current_account_id),
            appchain_registry_account,
        }
    }

    /// The version of the contract.
    pub fn version(&self) -> (r: String)
        ensures
            r@ == "0.1.0"@,
    {
        String::from_str("0.1.0")
    }

    /// Whether an appchain anchor may create the client of its appchain: an
    /// account whose parent is the appchain registry. Returns the appchain id.
    pub fn try_create_client_for_appchain(&self, predecessor_account_id: &str) -> (r: Result<String, NearIbcError>)
        requires
            char_count(predecessor_account_id@, '.') >= 1,
        ensures
            r is Ok <==> after_nth_char(predecessor_account_id@, '.', 0) == self.registry(),
            r matches Ok(id) ==> id@ == before_nth_char(predecessor_account_id@, '.', 0),
            r is Err ==> r == Err::<String, NearIbcError>(NearIbcError::InvalidCaller),
    {
        check_appchain_anchor(predecessor_account_id, self.appchain_registry_account.as_str())
    }

    /// The appchain whose client an appchain anchor creates, the first part of
    /// its id; only an account whose parent is the appchain registry may create
    /// one, and the contract refuses any other caller by failing.
    pub fn create_client_for_appchain(&self, predecessor_account_id: &str) -> (r: String)
        requires
            char_count(predecessor_account_id@, '.') >= 1,
            after_nth_char(predecessor_account_id@, '.', 0) == self.registry(),
        ensures
            r@ == before_nth_char(predecessor_account_id@, '.', 0),
    {
        self.try_create_client_for_appchain(predecessor_account_id).unwrap()
    }

    /// The change of the validator set that an appchain anchor sends to its
    /// appchain, for the appchain named by the first part of its id: only an
    /// account whose parent is the appchain registry may send one, and each of the
    /// validators' keys must be an Ed25519 key once its prefix byte is dropped;
    /// the contract refuses any other call by failing.
    pub fn send_vsc_packet(&self, predecessor_account_id: &str, vsc_packet_data: &VscPacketData) -> (r: ValidatorSetChange)
        requires
            char_count(predecessor_account_id@, '.') >= 1,
            after_nth_char(predecessor_account_id@, '.', 0) == self.registry(),
            forall|i: int| 0 <= i < vsc_packet_data.validator_pubkeys@.len()
                ==> validator_key_valid(#[trigger] vsc_packet_data.validator_pubkeys@[i].public_key@),
        ensures
            is_validator_set_change(r, before_nth_char(predecessor_account_id@, '.', 0), *vsc_packet_data),
    {
        let appchain_id = check_appchain_anchor(predecessor_account_id, self.appchain_registry_account.as_str()).unwrap();
        validator_set_change(appchain_id, vsc_packet_data).unwrap()
    }

    /// Whether an appchain anchor may send a change of the validator set, and the
    /// change when it may: the caller's parent must be the appchain registry, and
    /// each key an Ed25519 key once its prefix byte is dropped.
    pub fn try_send_vsc_packet(&self, predecessor_account_id: &str, vsc_packet_data: &VscPacketData)
        -> (r: Result<ValidatorSetChange, NearIbcError>)
        requires
            char_count(predecessor_account_id@, '.') >= 1,
        ensures
            after_nth_char(predecessor_account_id@, '.', 0) != self.registry()
                ==> r == Err::<ValidatorSetChange, NearIbcError>(NearIbcError::InvalidCaller),
            r is Ok <==> after_nth_char(predecessor_account_id@, '.', 0) == self.registry()
                && forall|i: int| 0 <= i < vsc_packet_data.validator_pubkeys@.len()
                    ==> validator_key_valid(#[trigger] vsc_packet_data.validator_pubkeys@[i].public_key@),
            after_nth_char(predecessor_account_id@, '.', 0) == self.registry() && r is Err
                ==> r == Err::<ValidatorSetChange, NearIbcError>(NearIbcError::InvalidPublicKey),
            r matches Ok(c) ==> is_validator_set_change(c, before_nth_char(predecessor_account_id@, '.', 0), *vsc_packet_data),
    {
        let appchain_id = check_appchain_anchor(predecessor_account_id, self.appchain_registry_account.as_str())?;
        if let Err(e) = validator_set_change(appchain_id, vsc_packet_data) {
            return Err(e);
        }
        Ok(self.send_vsc_packet(predecessor_account_id, vsc_packet_data))
    }

    /// Only the governance account may call.
    pub fn assert_governance(&self, predecessor_account_id: &str) -> (r: Result<(), NearIbcError>)
        ensures
            r is Ok <==> predecessor_account_id@ == self.governance(),
            r is Err ==> r == Err::<(), NearIbcError>(NearIbcError::NotGovernanceAccount),
    {
        assert_governance(predecessor_account_id, self.governance_account.as_str())
    }

    /// Only the governance account may call, on testnet.
    pub fn assert_testnet_governance(&self, current_account_id: &str, predecessor_account_id: &str) -> (r: Result<(), NearIbcError>)
        ensures
            match testnet_refusal(current_account_id@, predecessor_account_id@, self.governance()) {
                Some(e) => r == Err::<(), NearIbcError>(e),
                None => r is Ok,
            },
            !is_suffix(".testnet"@, current_account_id@) ==> r == Err::<(), NearIbcError>(NearIbcError::NotTestnet),
            is_suffix(".testnet"@, current_account_id@) && predecessor_account_id@ != self.governance()
                ==> r == Err::<(), NearIbcError>(NearIbcError::NotGovernanceAccount),
            r is Ok <==> is_suffix(".testnet"@, current_account_id@) && predecessor_account_id@ == self.governance(),
    {
        assert_testnet(current_account_id)?;
        self.assert_governance(predecessor_account_id)
    }

    /// The bookkeeping.
    pub fn near_ibc_store(&self) -> (r: &NearIbcStore)
        ensures
            *r == self.ibc_store(),
    {
        &self.near_ibc_store
    }

    /// The bookkeeping, to be changed in place.
    pub fn near_ibc_store_mut(&mut self) -> (r: &mut NearIbcStore)
        ensures
            *r == old(self).ibc_store(),
            final(self).ibc_store() == *final(r),
            final(self).governance() == old(self).governance(),
            final(self).registry() == old(self).registry(),
    {
        &mut self.near_ibc_store
    }

    /// The checked form of `set_max_length_of_ibc_events_history`: the error with which the contract fails on a call that `set_max_length_of_ibc_events_history` does not take, else what `set_max_length_of_ibc_events_history` does.
    ///
    /// Sets the maximum length of the history of IBC events; only the governance
    /// account may ask, with exactly one yoctoNEAR.
    pub fn try_set_max_length_of_ibc_events_history(
        &mut self,
        predecessor_account_id: &str,
        attached_deposit: u128,
        max_length: u64,
    ) -> (r: Result<ProcessingResult, NearIbcError>)
        requires
            old(self).wf(),
            !(old(self).ibc_store().history().start() == 0 && max_length == 0),
        ensures
            final(self).wf(),
            final(self).governance() == old(self).governance(),
            predecessor_account_id@ != old(self).governance() ==> r == Err::<ProcessingResult, NearIbcError>(NearIbcError::NotGovernanceAccount),
            predecessor_account_id@ == old(self).governance() && attached_deposit != 1
                ==> r == Err::<ProcessingResult, NearIbcError>(NearIbcError::RequiresOneYocto),
            r is Ok <==> predecessor_account_id@ == old(self).governance() && attached_deposit == 1,
            r is Err ==> final(self).ibc_store() == old(self).ibc_store(),
            r is Ok ==> final(self).ibc_store().history().max() == max_length
                && final(self).ibc_store().history().end() == old(self).ibc_store().history().end(),
    {
        self.assert_governance(predecessor_account_id)?;
        assert_one_yocto(attached_deposit)?;
        Ok(self.near_ibc_store.set_max_length_of_ibc_events_history(max_length))
    }
    /// Sets the maximum length of the history of IBC events, for the governance
    /// account with exactly one yoctoNEAR; the contract refuses any other call by
    /// failing.
    pub fn set_max_length_of_ibc_events_history(
        &mut self,
        predecessor_account_id: &str,
        attached_deposit: u128,
        max_length: u64,
    ) -> (r: ProcessingResult)
        requires
            old(self).wf(),
            !(old(self).ibc_store().history().start() == 0 && max_length == 0),
            predecessor_account_id@ == old(self).governance(),
            attached_deposit == 1,
        ensures
            final(self).wf(),
            final(self).governance() == old(self).governance(),
            final(self).ibc_store().history().max() == max_length,
            final(self).ibc_store().history().end() == old(self).ibc_store().history().end(),
    {
        self.try_set_max_length_of_ibc_events_history(predecessor_account_id, attached_deposit, max_length).unwrap()
    }
}

/// The state of the IBC implementation as the older version stored it: the
/// same bookkeeping, the governance account, and the appchain registry that its
/// module holder named.
pub struct OldContract {
    pub near_ibc_store: NearIbcStore,
    pub governance_account: String,
    pub appchain_registry_account: String,
}

impl StorageMigration for NearIbcContract {
    type Old = OldContract;

    open spec fn old_wf(old: &OldContract) -> bool {
        old.near_ibc_store.wf()
    }

    /// Keeps the bookkeeping, the governance account and the appchain registry.
    fn migrate_state(old: OldContract) -> (r: NearIbcContract)
        ensures
            r.wf(),
            r.ibc_store() == old.near_ibc_store,
            r.governance() == old.governance_account@,
            r.registry() == old.appchain_registry_account@,
    {
        let OldContract { near_ibc_store, governance_account, appchain_registry_account } = old;
        NearIbcContract { near_ibc_store, governance_account, appchain_registry_account }
    }
}

impl SudoFunctions for NearIbcContract {
    closed spec fn governance(&self) -> Seq<char> {
        self.governance_account@
    }

    /// The checked form of `setup_wrapped_token`: the error with which the contract fails on a call that `setup_wrapped_token` does not take, else what `setup_wrapped_token` does.
    ///
    /// Sets up the token contract of an asset through the token factory; only the
    /// governance account may ask, with enough gas and a deposit that covers what the
    /// token factory asks for.
    fn try_setup_wrapped_token(
        &self,
        current_account_id: &str,
        predecessor_account_id: &str,
        prepaid_gas: u64,
        attached_deposit: u128,
        storage_byte_cost: u128,
        trace_path: &String,
        base_denom: &String,
        metadata: &TokenMetadata,
    ) -> (r: Result<ContractCall, NearIbcError>)
        ensures
            predecessor_account_id@ != self.governance() ==> r == Err::<ContractCall, NearIbcError>(NearIbcError::NotGovernanceAccount),
            predecessor_account_id@ == self.governance() && prepaid_gas < GAS_FOR_COMPLEX_FUNCTION_CALL
                ==> r == Err::<ContractCall, NearIbcError>(NearIbcError::NotEnoughGas),
            predecessor_account_id@ == self.governance() && prepaid_gas >= GAS_FOR_COMPLEX_FUNCTION_CALL
                && attached_deposit < setup_deposit(storage_byte_cost, trace_path@, base_denom@, *metadata)
                ==> r == Err::<ContractCall, NearIbcError>(NearIbcError::NotEnoughDeposit),
            predecessor_account_id@ == self.governance() && prepaid_gas >= GAS_FOR_COMPLEX_FUNCTION_CALL
                && attached_deposit >= setup_deposit(storage_byte_cost, trace_path@, base_denom@, *metadata)
                && !valid_account_id(token_factory_id(current_account_id@))
                ==> r == Err::<ContractCall, NearIbcError>(NearIbcError::InvalidAccountId),
            r is Ok <==> predecessor_account_id@ == self.governance() && prepaid_gas >= GAS_FOR_COMPLEX_FUNCTION_CALL
                && attached_deposit >= setup_deposit(storage_byte_cost, trace_path@, base_denom@, *metadata)
                && valid_account_id(token_factory_id(current_account_id@)),
            r matches Ok(c) ==> {
                &&& c.contract_id@ == token_factory_id(current_account_id@)
                &&& c.deposit == setup_deposit(storage_byte_cost, trace_path@, base_denom@, *metadata)
                &&& c.gas == GAS_FOR_COMPLEX_FUNCTION_CALL - GAS_FOR_SIMPLE_FUNCTION_CALL
            },
    {
        self.assert_governance(predecessor_account_id)?;
        if prepaid_gas < GAS_FOR_COMPLEX_FUNCTION_CALL {
            return Err(NearIbcError::NotEnoughGas);
        }
        let size: u128 = 36 + 4 + text_bytes(trace_path.as_str()) + 4 + text_bytes(base_denom.as_str())
            + metadata_borsh_size(metadata);
        proof {
            assert(text_size(seq!['0'; 32]) == 36) by {
                assert(vstd::utf8::is_ascii_chars(seq!['0'; 32]));
                vstd::utf8::is_ascii_chars_encode_utf8(seq!['0'; 32]);
            }
            assert(size == placeholder_asset_size(trace_path@, base_denom@, *metadata));
            assert(storage_byte_cost * (32 + size) <= u128::MAX) by (nonlinear_arith)
                requires
                    INIT_BALANCE_FOR_WRAPPED_TOKEN_CONTRACT + storage_byte_cost * (32 + size) <= u128::MAX;
        }
        let minimum_deposit = INIT_BALANCE_FOR_WRAPPED_TOKEN_CONTRACT + storage_byte_cost * (32 + size);
        if attached_deposit < minimum_deposit {
            return Err(NearIbcError::NotEnoughDeposit);
        }
        let factory = match get_token_factory_contract_id(current_account_id) {
            Some(f) => f,
            None => { return Err(NearIbcError::InvalidAccountId); },
        };
        Ok(ContractCall {
            contract_id: factory,
            deposit: minimum_deposit,
            gas: GAS_FOR_COMPLEX_FUNCTION_CALL - GAS_FOR_SIMPLE_FUNCTION_CALL,
        })
    }


    /// The checked form of `setup_channel_escrow`: the error with which the contract fails on a call that `setup_channel_escrow` does not take, else what `setup_channel_escrow` does.
    ///
    /// Sets up the escrow of a channel through the escrow factory; only the
    /// governance account may ask, with enough gas and a deposit that covers the
    /// escrow's balance and the storage of the channel id.
    fn try_setup_channel_escrow(
        &self,
        current_account_id: &str,
        predecessor_account_id: &str,
        prepaid_gas: u64,
        attached_deposit: u128,
        storage_byte_cost: u128,
        channel_id: &String,
    ) -> (r: Result<ContractCall, NearIbcError>)
        ensures
            predecessor_account_id@ != self.governance() ==> r == Err::<ContractCall, NearIbcError>(NearIbcError::NotGovernanceAccount),
            predecessor_account_id@ == self.governance() && prepaid_gas < GAS_FOR_COMPLEX_FUNCTION_CALL
                ==> r == Err::<ContractCall, NearIbcError>(NearIbcError::NotEnoughGas),
            predecessor_account_id@ == self.governance() && prepaid_gas >= GAS_FOR_COMPLEX_FUNCTION_CALL
                && attached_deposit < escrow_setup_deposit(storage_byte_cost, channel_id@)
                ==> r == Err::<ContractCall, NearIbcError>(NearIbcError::NotEnoughDeposit),
            predecessor_account_id@ == self.governance() && prepaid_gas >= GAS_FOR_COMPLEX_FUNCTION_CALL
                && attached_deposit >= escrow_setup_deposit(storage_byte_cost, channel_id@)
                && !valid_account_id(escrow_factory_id(current_account_id@))
                ==> r == Err::<ContractCall, NearIbcError>(NearIbcError::InvalidAccountId),
            predecessor_account_id@ == self.governance() && prepaid_gas >= GAS_FOR_COMPLEX_FUNCTION_CALL
                && attached_deposit >= escrow_setup_deposit(storage_byte_cost, channel_id@)
                && valid_account_id(escrow_factory_id(current_account_id@)) && !channel_id_valid(channel_id@)
                ==> r == Err::<ContractCall, NearIbcError>(NearIbcError::InvalidChannelId),
            r is Ok <==> predecessor_account_id@ == self.governance() && prepaid_gas >= GAS_FOR_COMPLEX_FUNCTION_CALL
                && attached_deposit >= escrow_setup_deposit(storage_byte_cost, channel_id@)
                && valid_account_id(escrow_factory_id(current_account_id@)) && channel_id_valid(channel_id@),
            r matches Ok(c) ==> {
                &&& c.contract_id@ == escrow_factory_id(current_account_id@)
                &&& c.deposit == escrow_setup_deposit(storage_byte_cost, channel_id@)
                &&& c.gas == GAS_FOR_COMPLEX_FUNCTION_CALL - GAS_FOR_SIMPLE_FUNCTION_CALL
            },
    {
        self.assert_governance(predecessor_account_id)?;
        if prepaid_gas < GAS_FOR_COMPLEX_FUNCTION_CALL {
            return Err(NearIbcError::NotEnoughGas);
        }
        let size: u128 = 4 + text_bytes(channel_id.as_str()) + 16;
        proof {
            assert(storage_byte_cost * size <= u128::MAX) by (nonlinear_arith)
                requires
                    INIT_BALANCE_FOR_CHANNEL_ESCROW_CONTRACT + storage_byte_cost * size <= u128::MAX;
        }
        let minimum_deposit = INIT_BALANCE_FOR_CHANNEL_ESCROW_CONTRACT + storage_byte_cost * size;
        if attached_deposit < minimum_deposit {
            return Err(NearIbcError::NotEnoughDeposit);
        }
        let factory = match get_escrow_factory_contract_id(current_account_id) {
            Some(f) => f,
            None => { return Err(NearIbcError::InvalidAccountId); },
        };
        if !parse_channel_id(channel_id.as_str()) {
            return Err(NearIbcError::InvalidChannelId);
        }
        assert(factory@ == escrow_factory_id(current_account_id@));
        Ok(self.setup_channel_escrow(current_account_id, predecessor_account_id, prepaid_gas, attached_deposit, storage_byte_cost, channel_id))
    }


    /// The checked form of `register_asset_for_channel`: the error with which the contract fails on a call that `register_asset_for_channel` does not take, else what `register_asset_for_channel` does.
    ///
    /// Registers a token contract of NEAR for a channel in the channel's escrow; only
    /// the governance account may ask, for a token contract that is not one of the
    /// cross-chain assets of this account, with a deposit that covers the storage.
    fn try_register_asset_for_channel(
        &self,
        current_account_id: &str,
        predecessor_account_id: &str,
        attached_deposit: u128,
        storage_byte_cost: u128,
        channel_id: &String,
        base_denom: &String,
        token_contract: &String,
    ) -> (r: Result<ContractCall, NearIbcError>)
        ensures
            predecessor_account_id@ != self.governance() ==> r == Err::<ContractCall, NearIbcError>(NearIbcError::NotGovernanceAccount),
            predecessor_account_id@ == self.governance() && is_sub_account_of(token_contract@, current_account_id@)
                ==> r == Err::<ContractCall, NearIbcError>(NearIbcError::InvalidTokenContractAccount),
            predecessor_account_id@ == self.governance() && !is_sub_account_of(token_contract@, current_account_id@)
                && attached_deposit < register_asset_deposit(storage_byte_cost, base_denom@, token_contract@)
                ==> r == Err::<ContractCall, NearIbcError>(NearIbcError::NotEnoughDeposit),
            predecessor_account_id@ == self.governance() && !is_sub_account_of(token_contract@, current_account_id@)
                && attached_deposit >= register_asset_deposit(storage_byte_cost, base_denom@, token_contract@)
                && !escrow_reachable(current_account_id@, channel_id@)
                ==> r == Err::<ContractCall, NearIbcError>(NearIbcError::InvalidAccountId),
            r is Ok <==> predecessor_account_id@ == self.governance() && !is_sub_account_of(token_contract@, current_account_id@)
                && attached_deposit >= register_asset_deposit(storage_byte_cost, base_denom@, token_contract@)
                && escrow_reachable(current_account_id@, channel_id@),
            r matches Ok(c) ==> {
                &&& c.contract_id@ == channel_escrow_id(current_account_id@, channel_id@)
                &&& c.deposit == register_asset_deposit(storage_byte_cost, base_denom@, token_contract@)
                &&& c.gas == GAS_FOR_SIMPLE_FUNCTION_CALL
            },
    {
        self.assert_governance(predecessor_account_id)?;
        let suffix = dot_prefixed(current_account_id);
        if ends_with(token_contract.as_str(), suffix.as_str()) {
            return Err(NearIbcError::InvalidTokenContractAccount);
        }
        let size: u128 = 4 + 4 + text_bytes(base_denom.as_str()) + text_bytes(token_contract.as_str());
        proof {
            assert(vstd::utf8::encode_utf8(Seq::<char>::empty()).len() == 0) by {
                assert(vstd::utf8::is_ascii_chars(Seq::<char>::empty()));
                vstd::utf8::is_ascii_chars_encode_utf8(Seq::<char>::empty());
            }
            assert(size == text_size(Seq::<char>::empty()) + text_size(base_denom@) + byte_len(token_contract@));
        }
        let minimum_deposit = storage_byte_cost * size;
        if attached_deposit < minimum_deposit {
            return Err(NearIbcError::NotEnoughDeposit);
        }
        let escrow = escrow_of_channel(current_account_id, channel_id.as_str())?;
        Ok(ContractCall { contract_id: escrow, deposit: minimum_deposit, gas: GAS_FOR_SIMPLE_FUNCTION_CALL })
    }


    /// The checked form of `unregister_asset_from_channel`: the error with which the contract fails on a call that `unregister_asset_from_channel` does not take, else what `unregister_asset_from_channel` does.
    ///
    /// Unregisters an asset of NEAR from a channel's escrow; only the governance
    /// account may ask, with exactly one yoctoNEAR.
    fn try_unregister_asset_from_channel(
        &self,
        current_account_id: &str,
        predecessor_account_id: &str,
        attached_deposit: u128,
        channel_id: &String,
    ) -> (r: Result<ContractCall, NearIbcError>)
        ensures
            predecessor_account_id@ != self.governance() ==> r == Err::<ContractCall, NearIbcError>(NearIbcError::NotGovernanceAccount),
            predecessor_account_id@ == self.governance() && attached_deposit != 1
                ==> r == Err::<ContractCall, NearIbcError>(NearIbcError::RequiresOneYocto),
            predecessor_account_id@ == self.governance() && attached_deposit == 1 && !escrow_reachable(current_account_id@, channel_id@)
                ==> r == Err::<ContractCall, NearIbcError>(NearIbcError::InvalidAccountId),
            r is Ok <==> predecessor_account_id@ == self.governance() && attached_deposit == 1
                && escrow_reachable(current_account_id@, channel_id@),
            r matches Ok(c) ==> c.contract_id@ == channel_escrow_id(current_account_id@, channel_id@) && c.deposit == 0
                && c.gas == GAS_FOR_SIMPLE_FUNCTION_CALL,
    {
        self.assert_governance(predecessor_account_id)?;
        assert_one_yocto(attached_deposit)?;
        let escrow = escrow_of_channel(current_account_id, channel_id.as_str())?;
        Ok(ContractCall { contract_id: escrow, deposit: 0, gas: GAS_FOR_SIMPLE_FUNCTION_CALL })
    }


    /// The checked form of `cancel_transfer_request_in_channel_escrow`: the error with which the contract fails on a call that `cancel_transfer_request_in_channel_escrow` does not take, else what `cancel_transfer_request_in_channel_escrow` does.
    ///
    /// Cancels a pending transfer request in a channel's escrow; only the governance
    /// account may ask, with exactly one yoctoNEAR.
    fn try_cancel_transfer_request_in_channel_escrow(
        &self,
        current_account_id: &str,
        predecessor_account_id: &str,
        attached_deposit: u128,
        channel_id: &String,
    ) -> (r: Result<ContractCall, NearIbcError>)
        ensures
            predecessor_account_id@ != self.governance() ==> r == Err::<ContractCall, NearIbcError>(NearIbcError::NotGovernanceAccount),
            predecessor_account_id@ == self.governance() && attached_deposit != 1
                ==> r == Err::<ContractCall, NearIbcError>(NearIbcError::RequiresOneYocto),
            predecessor_account_id@ == self.governance() && attached_deposit == 1 && !escrow_reachable(current_account_id@, channel_id@)
                ==> r == Err::<ContractCall, NearIbcError>(NearIbcError::InvalidAccountId),
            r is Ok <==> predecessor_account_id@ == self.governance() && attached_deposit == 1
                && escrow_reachable(current_account_id@, channel_id@),
            r matches Ok(c) ==> c.contract_id@ == channel_escrow_id(current_account_id@, channel_id@) && c.deposit == 0
                && c.gas == 4 * GAS_FOR_SIMPLE_FUNCTION_CALL,
    {
        self.assert_governance(predecessor_account_id)?;
        assert_one_yocto(attached_deposit)?;
        let escrow = escrow_of_channel(current_account_id, channel_id.as_str())?;
        Ok(ContractCall { contract_id: escrow, deposit: 0, gas: 4 * GAS_FOR_SIMPLE_FUNCTION_CALL })
    }


    fn setup_wrapped_token(
        &self,
        current_account_id: &str,
        predecessor_account_id: &str,
        prepaid_gas: u64,
        attached_deposit: u128,
        storage_byte_cost: u128,
        trace_path: &String,
        base_denom: &String,
        metadata: &TokenMetadata,
    ) -> (r: ContractCall)
        ensures
            r.contract_id@ == token_factory_id(current_account_id@),
            r.deposit == setup_deposit(storage_byte_cost, trace_path@, base_denom@, *metadata),
            r.gas == GAS_FOR_COMPLEX_FUNCTION_CALL - GAS_FOR_SIMPLE_FUNCTION_CALL,
    {
        self.try_setup_wrapped_token(
            current_account_id, predecessor_account_id, prepaid_gas, attached_deposit, storage_byte_cost,
            trace_path, base_denom, metadata,
        ).unwrap()
    }

    fn setup_channel_escrow(
        &self,
        current_account_id: &str,
        predecessor_account_id: &str,
        prepaid_gas: u64,
        attached_deposit: u128,
        storage_byte_cost: u128,
        channel_id: &String,
    ) -> (r: ContractCall)
        ensures
            r.contract_id@ == escrow_factory_id(current_account_id@),
            r.deposit == escrow_setup_deposit(storage_byte_cost, channel_id@),
            r.gas == GAS_FOR_COMPLEX_FUNCTION_CALL - GAS_FOR_SIMPLE_FUNCTION_CALL,
    {
        let size: u128 = 4 + text_bytes(channel_id.as_str()) + 16;
        proof {
            assert(storage_byte_cost * size <= u128::MAX) by (nonlinear_arith)
                requires
                    INIT_BALANCE_FOR_CHANNEL_ESCROW_CONTRACT + storage_byte_cost * size <= u128::MAX;
        }
        let minimum_deposit = INIT_BALANCE_FOR_CHANNEL_ESCROW_CONTRACT + storage_byte_cost * size;
        let factory = get_escrow_factory_contract_id(current_account_id).unwrap();
        ContractCall {
            contract_id: factory,
            deposit: minimum_deposit,
            gas: GAS_FOR_COMPLEX_FUNCTION_CALL - GAS_FOR_SIMPLE_FUNCTION_CALL,
        }
    }

    fn register_asset_for_channel(
        &self,
        current_account_id: &str,
        predecessor_account_id: &str,
        attached_deposit: u128,
        storage_byte_cost: u128,
        channel_id: &String,
        base_denom: &String,
        token_contract: &String,
    ) -> (r: ContractCall)
        ensures
            r.contract_id@ == channel_escrow_id(current_account_id@, channel_id@),
            r.deposit == register_asset_deposit(storage_byte_cost, base_denom@, token_contract@),
            r.gas == GAS_FOR_SIMPLE_FUNCTION_CALL,
    {
        self.try_register_asset_for_channel(
            current_account_id, predecessor_account_id, attached_deposit, storage_byte_cost,
            channel_id, base_denom, token_contract,
        ).unwrap()
    }

    fn unregister_asset_from_channel(
        &self,
        current_account_id: &str,
        predecessor_account_id: &str,
        attached_deposit: u128,
        channel_id: &String,
    ) -> (r: ContractCall)
        ensures
            r.contract_id@ == channel_escrow_id(current_account_id@, channel_id@),
            r.deposit == 0,
            r.gas == GAS_FOR_SIMPLE_FUNCTION_CALL,
    {
        self.try_unregister_asset_from_channel(current_account_id, predecessor_account_id, attached_deposit, channel_id).unwrap()
    }

    fn cancel_transfer_request_in_channel_escrow(
        &self,
        current_account_id: &str,
        predecessor_account_id: &str,
        attached_deposit: u128,
        channel_id: &String,
    ) -> (r: ContractCall)
        ensures
            r.contract_id@ == channel_escrow_id(current_account_id@, channel_id@),
            r.deposit == 0,
            r.gas == 4 * GAS_FOR_SIMPLE_FUNCTION_CALL,
    {
        self.try_cancel_transfer_request_in_channel_escrow(current_account_id, predecessor_account_id, attached_deposit, channel_id).unwrap()
    }
}

/// Why a testnet function refuses a call: the contract is not on testnet, or the
/// caller is not the governance account.
pub open spec fn testnet_refusal(current_account_id: Seq<char>, predecessor_account_id: Seq<char>, governance: Seq<char>) -> Option<NearIbcError> {
    if !is_suffix(".testnet"@, current_account_id) {
        Some(NearIbcError::NotTestnet)
    } else if predecessor_account_id != governance {
        Some(NearIbcError::NotGovernanceAccount)
    } else {
        None
    }
}

/// The functions of the IBC implementation that clear what it has stored; only
/// its governance account may call them, and only on testnet. Those that clear a
/// whole collection remove at most what the caller's budget allows in one call.
pub trait TestnetFunctions: SudoFunctions {
    /// The bookkeeping of the contract.
    spec fn ibc_store(&self) -> NearIbcStore;

    /// The checked form of `clear_ibc_events_history`: the error with which the contract fails on a call that `clear_ibc_events_history` does not take, else what `clear_ibc_events_history` does.
    ///
    /// Empties the history of IBC events.
    fn try_clear_ibc_events_history(&mut self, current_account_id: &str, predecessor_account_id: &str)
        -> (r: Result<ProcessingResult, NearIbcError>)
        requires
            old(self).ibc_store().wf(),
        ;

    /// The checked form of `clear_ibc_store_counters`: the error with which the contract fails on a call that `clear_ibc_store_counters` does not take, else what `clear_ibc_store_counters` does.
    ///
    /// Sets the counters of clients, connections and channels back to zero.
    fn try_clear_ibc_store_counters(&mut self, current_account_id: &str, predecessor_account_id: &str)
        -> (r: Result<(), NearIbcError>)
        requires
            old(self).ibc_store().wf(),
        ;

    /// The checked form of `clear_clients`: the error with which the contract fails on a call that `clear_clients` does not take, else what `clear_clients` does.
    ///
    /// Removes the oldest clients.
    fn try_clear_clients(&mut self, current_account_id: &str, predecessor_account_id: &str, removal_budget: u64)
        -> (r: Result<(ProcessingResult, Vec<(String, Vec<NearHeight>)>), NearIbcError>)
        requires
            old(self).ibc_store().wf(),
        ;

    /// The checked form of `clear_connections`: the error with which the contract fails on a call that `clear_connections` does not take, else what `clear_connections` does.
    ///
    /// Removes the oldest connections.
    fn try_clear_connections(&mut self, current_account_id: &str, predecessor_account_id: &str, removal_budget: u64)
        -> (r: Result<(ProcessingResult, Vec<String>), NearIbcError>)
        requires
            old(self).ibc_store().wf(),
        ;

    /// The checked form of `clear_channels`: the error with which the contract fails on a call that `clear_channels` does not take, else what `clear_channels` does.
    ///
    /// Removes the oldest channels.
    fn try_clear_channels(&mut self, current_account_id: &str, predecessor_account_id: &str, removal_budget: u64)
        -> (r: Result<(ProcessingResult, Vec<(PortChannel, (Vec<u64>, Vec<u64>, Vec<u64>))>), NearIbcError>)
        requires
            old(self).ibc_store().wf(),
        ;

    /// The checked form of `clear_consensus_state_by`: the error with which the contract fails on a call that `clear_consensus_state_by` does not take, else what `clear_consensus_state_by` does.
    ///
    /// Removes the consensus states of a client below a height, or all of them,
    /// least first.
    fn try_clear_consensus_state_by(
        &mut self,
        current_account_id: &str,
        predecessor_account_id: &str,
        client_id: &String,
        lt_height: Option<&NearHeight>,
        removal_budget: u64,
    ) -> (r: Result<(ProcessingResult, Vec<NearHeight>), NearIbcError>)
        requires
            old(self).ibc_store().wf(),
            testnet_refusal(current_account_id@, predecessor_account_id@, old(self).governance()) is None
                ==> old(self).ibc_store().consensus_heights().contains_key(client_id@),
        ;

    /// The checked form of `remove_client`: the error with which the contract fails on a call that `remove_client` does not take, else what `remove_client` does.
    ///
    /// Removes a client.
    fn try_remove_client(&mut self, current_account_id: &str, predecessor_account_id: &str, client_id: &String)
        -> (r: Result<Vec<NearHeight>, NearIbcError>)
        requires
            old(self).ibc_store().wf(),
        ;

    /// The checked form of `remove_raw_client`: the error with which the contract fails on a call that `remove_raw_client` does not take, else what `remove_raw_client` does.
    ///
    /// Removes a client whose states are not decoded.
    fn try_remove_raw_client(&mut self, current_account_id: &str, predecessor_account_id: &str, client_id: &String)
        -> (r: Result<(), NearIbcError>)
        requires
            old(self).ibc_store().wf(),
        ;

    /// The checked form of `remove_connection`: the error with which the contract fails on a call that `remove_connection` does not take, else what `remove_connection` does.
    ///
    /// Removes a connection.
    fn try_remove_connection(&mut self, current_account_id: &str, predecessor_account_id: &str, connection_id: &String)
        -> (r: Result<(), NearIbcError>)
        requires
            old(self).ibc_store().wf(),
        ;

    /// The checked form of `remove_channel`: the error with which the contract fails on a call that `remove_channel` does not take, else what `remove_channel` does.
    ///
    /// Removes a channel.
    fn try_remove_channel(&mut self, current_account_id: &str, predecessor_account_id: &str, port_channel: &PortChannel)
        -> (r: Result<(Vec<u64>, Vec<u64>, Vec<u64>), NearIbcError>)
        requires
            old(self).ibc_store().wf(),
        ;

    /// Empties the history of IBC events.
    /// Only for the governance account on testnet; the contract refuses any other call by failing.
    fn clear_ibc_events_history(&mut self, current_account_id: &str, predecessor_account_id: &str) -> (x: ProcessingResult)
        requires
            old(self).ibc_store().wf(),
            testnet_refusal(current_account_id@, predecessor_account_id@, old(self).governance()) is None,
        ;

    /// Sets the counters of clients, connections and channels back to zero.
    /// Only for the governance account on testnet; the contract refuses any other call by failing.
    fn clear_ibc_store_counters(&mut self, current_account_id: &str, predecessor_account_id: &str)
        requires
            old(self).ibc_store().wf(),
            testnet_refusal(current_account_id@, predecessor_account_id@, old(self).governance()) is None,
        ;

    /// Removes the oldest clients.
    /// Only for the governance account on testnet; the contract refuses any other call by failing.
    fn clear_clients(&mut self, current_account_id: &str, predecessor_account_id: &str, removal_budget: u64) -> (x: (ProcessingResult, Vec<(String, Vec<NearHeight>)>))
        requires
            old(self).ibc_store().wf(),
            testnet_refusal(current_account_id@, predecessor_account_id@, old(self).governance()) is None,
        ;

    /// Removes the oldest connections.
    /// Only for the governance account on testnet; the contract refuses any other call by failing.
    fn clear_connections(&mut self, current_account_id: &str, predecessor_account_id: &str, removal_budget: u64) -> (x: (ProcessingResult, Vec<String>))
        requires
            old(self).ibc_store().wf(),
            testnet_refusal(current_account_id@, predecessor_account_id@, old(self).governance()) is None,
        ;

    /// Removes the oldest channels.
    /// Only for the governance account on testnet; the contract refuses any other call by failing.
    fn clear_channels(&mut self, current_account_id: &str, predecessor_account_id: &str, removal_budget: u64) -> (x: (ProcessingResult, Vec<(PortChannel, (Vec<u64>, Vec<u64>, Vec<u64>))>))
        requires
            old(self).ibc_store().wf(),
            testnet_refusal(current_account_id@, predecessor_account_id@, old(self).governance()) is None,
        ;

    /// Removes the consensus states of a client below a height, or all of them,
    /// least first.
    /// Only for the governance account on testnet; the contract refuses any other call by failing.
    fn clear_consensus_state_by(&mut self,
        current_account_id: &str,
        predecessor_account_id: &str,
        client_id: &String,
        lt_height: Option<&NearHeight>,
        removal_budget: u64,
    ) -> (x: (ProcessingResult, Vec<NearHeight>))
        requires
            old(self).ibc_store().wf(),
            testnet_refusal(current_account_id@, predecessor_account_id@, old(self).governance()) is None
                ==> old(self).ibc_store().consensus_heights().contains_key(client_id@),
            testnet_refusal(current_account_id@, predecessor_account_id@, old(self).governance()) is None,
        ;

    /// Removes a client.
    /// Only for the governance account on testnet; the contract refuses any other call by failing.
    fn remove_client(&mut self, current_account_id: &str, predecessor_account_id: &str, client_id: &String) -> (x: Vec<NearHeight>)
        requires
            old(self).ibc_store().wf(),
            testnet_refusal(current_account_id@, predecessor_account_id@, old(self).governance()) is None,
        ;

    /// Removes a client whose states are not decoded.
    /// Only for the governance account on testnet; the contract refuses any other call by failing.
    fn remove_raw_client(&mut self, current_account_id: &str, predecessor_account_id: &str, client_id: &String)
        requires
            old(self).ibc_store().wf(),
            testnet_refusal(current_account_id@, predecessor_account_id@, old(self).governance()) is None,
        ;

    /// Removes a connection.
    /// Only for the governance account on testnet; the contract refuses any other call by failing.
    fn remove_connection(&mut self, current_account_id: &str, predecessor_account_id: &str, connection_id: &String)
        requires
            old(self).ibc_store().wf(),
            testnet_refusal(current_account_id@, predecessor_account_id@, old(self).governance()) is None,
        ;

    /// Removes a channel.
    /// Only for the governance account on testnet; the contract refuses any other call by failing.
    fn remove_channel(&mut self, current_account_id: &str, predecessor_account_id: &str, port_channel: &PortChannel) -> (x: (Vec<u64>, Vec<u64>, Vec<u64>))
        requires
            old(self).ibc_store().wf(),
            testnet_refusal(current_account_id@, predecessor_account_id@, old(self).governance()) is None,
        ;
}

impl TestnetFunctions for NearIbcContract {
    closed spec fn ibc_store(&self) -> NearIbcStore {
        self.near_ibc_store
    }

    /// The checked form of `clear_ibc_events_history`: the error with which the contract fails on a call that `clear_ibc_events_history` does not take, else what `clear_ibc_events_history` does.
    ///
    fn try_clear_ibc_events_history(&mut self, current_account_id: &str, predecessor_account_id: &str)
        -> (r: Result<ProcessingResult, NearIbcError>)
        ensures
            final(self).ibc_store().wf(),
            final(self).governance() == old(self).governance(),
            final(self).registry() == old(self).registry(),
            testnet_refusal(current_account_id@, predecessor_account_id@, old(self).governance()) matches Some(e)
                ==> r == Err::<ProcessingResult, NearIbcError>(e) && final(self).ibc_store() == old(self).ibc_store(),
            testnet_refusal(current_account_id@, predecessor_account_id@, old(self).governance()) is None
                ==> (r matches Ok(x) && x is Done && old(self).ibc_store().history_cleared(final(self).ibc_store())),
    {
        self.assert_testnet_governance(current_account_id, predecessor_account_id)?;
        Ok(self.near_ibc_store.clear_ibc_events_history())
    }

    /// The checked form of `clear_ibc_store_counters`: the error with which the contract fails on a call that `clear_ibc_store_counters` does not take, else what `clear_ibc_store_counters` does.
    ///
    fn try_clear_ibc_store_counters(&mut self, current_account_id: &str, predecessor_account_id: &str)
        -> (r: Result<(), NearIbcError>)
        ensures
            final(self).ibc_store().wf(),
            final(self).governance() == old(self).governance(),
            final(self).registry() == old(self).registry(),
            testnet_refusal(current_account_id@, predecessor_account_id@, old(self).governance()) matches Some(e)
                ==> r == Err::<(), NearIbcError>(e) && final(self).ibc_store() == old(self).ibc_store(),
            testnet_refusal(current_account_id@, predecessor_account_id@, old(self).governance()) is None
                ==> (r is Ok && old(self).ibc_store().counters_cleared(final(self).ibc_store())),
    {
        self.assert_testnet_governance(current_account_id, predecessor_account_id)?;
        self.near_ibc_store.clear_counters();
        Ok(())
    }

    /// The checked form of `clear_clients`: the error with which the contract fails on a call that `clear_clients` does not take, else what `clear_clients` does.
    ///
    fn try_clear_clients(&mut self, current_account_id: &str, predecessor_account_id: &str, removal_budget: u64)
        -> (r: Result<(ProcessingResult, Vec<(String, Vec<NearHeight>)>), NearIbcError>)
        ensures
            final(self).ibc_store().wf(),
            final(self).governance() == old(self).governance(),
            final(self).registry() == old(self).registry(),
            testnet_refusal(current_account_id@, predecessor_account_id@, old(self).governance()) matches Some(e)
                ==> r == Err::<(ProcessingResult, Vec<(String, Vec<NearHeight>)>), NearIbcError>(e) && final(self).ibc_store() == old(self).ibc_store(),
            testnet_refusal(current_account_id@, predecessor_account_id@, old(self).governance()) is None
                ==> (r matches Ok(x) && old(self).ibc_store().clients_cleared(final(self).ibc_store(), removal_budget, x.0, x.1@)),
    {
        self.assert_testnet_governance(current_account_id, predecessor_account_id)?;
        Ok(self.near_ibc_store.clear_clients(removal_budget))
    }

    /// The checked form of `clear_connections`: the error with which the contract fails on a call that `clear_connections` does not take, else what `clear_connections` does.
    ///
    fn try_clear_connections(&mut self, current_account_id: &str, predecessor_account_id: &str, removal_budget: u64)
        -> (r: Result<(ProcessingResult, Vec<String>), NearIbcError>)
        ensures
            final(self).ibc_store().wf(),
            final(self).governance() == old(self).governance(),
            final(self).registry() == old(self).registry(),
            testnet_refusal(current_account_id@, predecessor_account_id@, old(self).governance()) matches Some(e)
                ==> r == Err::<(ProcessingResult, Vec<String>), NearIbcError>(e) && final(self).ibc_store() == old(self).ibc_store(),
            testnet_refusal(current_account_id@, predecessor_account_id@, old(self).governance()) is None
                ==> (r matches Ok(x) && old(self).ibc_store().connections_cleared(final(self).ibc_store(), removal_budget, x.0, x.1@)),
    {
        self.assert_testnet_governance(current_account_id, predecessor_account_id)?;
        Ok(self.near_ibc_store.clear_connections(removal_budget))
    }

    /// The checked form of `clear_channels`: the error with which the contract fails on a call that `clear_channels` does not take, else what `clear_channels` does.
    ///
    fn try_clear_channels(&mut self, current_account_id: &str, predecessor_account_id: &str, removal_budget: u64)
        -> (r: Result<(ProcessingResult, Vec<(PortChannel, (Vec<u64>, Vec<u64>, Vec<u64>))>), NearIbcError>)
        ensures
            final(self).ibc_store().wf(),
            final(self).governance() == old(self).governance(),
            final(self).registry() == old(self).registry(),
            testnet_refusal(current_account_id@, predecessor_account_id@, old(self).governance()) matches Some(e)
                ==> r == Err::<(ProcessingResult, Vec<(PortChannel, (Vec<u64>, Vec<u64>, Vec<u64>))>), NearIbcError>(e) && final(self).ibc_store() == old(self).ibc_store(),
            testnet_refusal(current_account_id@, predecessor_account_id@, old(self).governance()) is None
                ==> (r matches Ok(x) && old(self).ibc_store().channels_cleared(final(self).ibc_store(), removal_budget, x.0, x.1@)),
    {
        self.assert_testnet_governance(current_account_id, predecessor_account_id)?;
        Ok(self.near_ibc_store.clear_channels(removal_budget))
    }

    /// The checked form of `clear_consensus_state_by`: the error with which the contract fails on a call that `clear_consensus_state_by` does not take, else what `clear_consensus_state_by` does.
    ///
    fn try_clear_consensus_state_by(&mut self, current_account_id: &str, predecessor_account_id: &str,
        client_id: &String,
        lt_height: Option<&NearHeight>,
        removal_budget: u64,
    )
        -> (r: Result<(ProcessingResult, Vec<NearHeight>), NearIbcError>)
        ensures
            final(self).ibc_store().wf(),
            final(self).governance() == old(self).governance(),
            final(self).registry() == old(self).registry(),
            testnet_refusal(current_account_id@, predecessor_account_id@, old(self).governance()) matches Some(e)
                ==> r == Err::<(ProcessingResult, Vec<NearHeight>), NearIbcError>(e) && final(self).ibc_store() == old(self).ibc_store(),
            testnet_refusal(current_account_id@, predecessor_account_id@, old(self).governance()) is None
                ==> (r matches Ok(x) && old(self).ibc_store().consensus_states_cleared(final(self).ibc_store(), client_id@, lt_height, removal_budget, x.0, x.1@)),
    {
        self.assert_testnet_governance(current_account_id, predecessor_account_id)?;
        Ok(self.near_ibc_store.clear_consensus_state_by(client_id, lt_height, removal_budget))
    }

    /// The checked form of `remove_client`: the error with which the contract fails on a call that `remove_client` does not take, else what `remove_client` does.
    ///
    fn try_remove_client(&mut self, current_account_id: &str, predecessor_account_id: &str, client_id: &String)
        -> (r: Result<Vec<NearHeight>, NearIbcError>)
        ensures
            final(self).ibc_store().wf(),
            final(self).governance() == old(self).governance(),
            final(self).registry() == old(self).registry(),
            testnet_refusal(current_account_id@, predecessor_account_id@, old(self).governance()) matches Some(e)
                ==> r == Err::<Vec<NearHeight>, NearIbcError>(e) && final(self).ibc_store() == old(self).ibc_store(),
            testnet_refusal(current_account_id@, predecessor_account_id@, old(self).governance()) is None
                ==> (r matches Ok(x) && old(self).ibc_store().client_removed(final(self).ibc_store(), client_id@, x@)),
    {
        self.assert_testnet_governance(current_account_id, predecessor_account_id)?;
        Ok(self.near_ibc_store.remove_client(client_id))
    }

    /// The checked form of `remove_raw_client`: the error with which the contract fails on a call that `remove_raw_client` does not take, else what `remove_raw_client` does.
    ///
    fn try_remove_raw_client(&mut self, current_account_id: &str, predecessor_account_id: &str, client_id: &String)
        -> (r: Result<(), NearIbcError>)
        ensures
            final(self).ibc_store().wf(),
            final(self).governance() == old(self).governance(),
            final(self).registry() == old(self).registry(),
            testnet_refusal(current_account_id@, predecessor_account_id@, old(self).governance()) matches Some(e)
                ==> r == Err::<(), NearIbcError>(e) && final(self).ibc_store() == old(self).ibc_store(),
            testnet_refusal(current_account_id@, predecessor_account_id@, old(self).governance()) is None
                ==> (r is Ok && old(self).ibc_store().raw_client_removed(final(self).ibc_store(), client_id@)),
    {
        self.assert_testnet_governance(current_account_id, predecessor_account_id)?;
        self.near_ibc_store.remove_raw_client(client_id);
        Ok(())
    }

    /// The checked form of `remove_connection`: the error with which the contract fails on a call that `remove_connection` does not take, else what `remove_connection` does.
    ///
    fn try_remove_connection(&mut self, current_account_id: &str, predecessor_account_id: &str, connection_id: &String)
        -> (r: Result<(), NearIbcError>)
        ensures
            final(self).ibc_store().wf(),
            final(self).governance() == old(self).governance(),
            final(self).registry() == old(self).registry(),
            testnet_refusal(current_account_id@, predecessor_account_id@, old(self).governance()) matches Some(e)
                ==> r == Err::<(), NearIbcError>(e) && final(self).ibc_store() == old(self).ibc_store(),
            testnet_refusal(current_account_id@, predecessor_account_id@, old(self).governance()) is None
                ==> (r is Ok && old(self).ibc_store().connection_removed(final(self).ibc_store(), connection_id@)),
    {
        self.assert_testnet_governance(current_account_id, predecessor_account_id)?;
        self.near_ibc_store.remove_connection(connection_id);
        Ok(())
    }

    /// The checked form of `remove_channel`: the error with which the contract fails on a call that `remove_channel` does not take, else what `remove_channel` does.
    ///
    fn try_remove_channel(&mut self, current_account_id: &str, predecessor_account_id: &str, port_channel: &PortChannel)
        -> (r: Result<(Vec<u64>, Vec<u64>, Vec<u64>), NearIbcError>)
        ensures
            final(self).ibc_store().wf(),
            final(self).governance() == old(self).governance(),
            final(self).registry() == old(self).registry(),
            testnet_refusal(current_account_id@, predecessor_account_id@, old(self).governance()) matches Some(e)
                ==> r == Err::<(Vec<u64>, Vec<u64>, Vec<u64>), NearIbcError>(e) && final(self).ibc_store() == old(self).ibc_store(),
            testnet_refusal(current_account_id@, predecessor_account_id@, old(self).governance()) is None
                ==> (r matches Ok(x) && old(self).ibc_store().channel_removed(final(self).ibc_store(), port_channel.key_view(), (x.0@, x.1@, x.2@))),
    {
        self.assert_testnet_governance(current_account_id, predecessor_account_id)?;
        Ok(self.near_ibc_store.remove_channel(port_channel))
    }

    fn clear_ibc_events_history(&mut self, current_account_id: &str, predecessor_account_id: &str) -> (x: ProcessingResult)
        ensures
            final(self).ibc_store().wf(),
            final(self).governance() == old(self).governance(),
            final(self).registry() == old(self).registry(),
            x is Done && old(self).ibc_store().history_cleared(final(self).ibc_store()),
    {
        self.try_clear_ibc_events_history(current_account_id, predecessor_account_id).unwrap()
    }

    fn clear_ibc_store_counters(&mut self, current_account_id: &str, predecessor_account_id: &str)
        ensures
            final(self).ibc_store().wf(),
            final(self).governance() == old(self).governance(),
            final(self).registry() == old(self).registry(),
            old(self).ibc_store().counters_cleared(final(self).ibc_store()),
    {
        self.try_clear_ibc_store_counters(current_account_id, predecessor_account_id).unwrap()
    }

    fn clear_clients(&mut self, current_account_id: &str, predecessor_account_id: &str, removal_budget: u64) -> (x: (ProcessingResult, Vec<(String, Vec<NearHeight>)>))
        ensures
            final(self).ibc_store().wf(),
            final(self).governance() == old(self).governance(),
            final(self).registry() == old(self).registry(),
            old(self).ibc_store().clients_cleared(final(self).ibc_store(), removal_budget, x.0, x.1@),
    {
        self.try_clear_clients(current_account_id, predecessor_account_id, removal_budget).unwrap()
    }

    fn clear_connections(&mut self, current_account_id: &str, predecessor_account_id: &str, removal_budget: u64) -> (x: (ProcessingResult, Vec<String>))
        ensures
            final(self).ibc_store().wf(),
            final(self).governance() == old(self).governance(),
            final(self).registry() == old(self).registry(),
            old(self).ibc_store().connections_cleared(final(self).ibc_store(), removal_budget, x.0, x.1@),
    {
        self.try_clear_connections(current_account_id, predecessor_account_id, removal_budget).unwrap()
    }

    fn clear_channels(&mut self, current_account_id: &str, predecessor_account_id: &str, removal_budget: u64) -> (x: (ProcessingResult, Vec<(PortChannel, (Vec<u64>, Vec<u64>, Vec<u64>))>))
        ensures
            final(self).ibc_store().wf(),
            final(self).governance() == old(self).governance(),
            final(self).registry() == old(self).registry(),
            old(self).ibc_store().channels_cleared(final(self).ibc_store(), removal_budget, x.0, x.1@),
    {
        self.try_clear_channels(current_account_id, predecessor_account_id, removal_budget).unwrap()
    }

    fn clear_consensus_state_by(&mut self, current_account_id: &str, predecessor_account_id: &str,
        client_id: &String,
        lt_height: Option<&NearHeight>,
        removal_budget: u64,
    ) -> (x: (ProcessingResult, Vec<NearHeight>))
        ensures
            final(self).ibc_store().wf(),
            final(self).governance() == old(self).governance(),
            final(self).registry() == old(self).registry(),
            old(self).ibc_store().consensus_states_cleared(final(self).ibc_store(), client_id@, lt_height, removal_budget, x.0, x.1@),
    {
        self.try_clear_consensus_state_by(current_account_id, predecessor_account_id, client_id, lt_height, removal_budget).unwrap()
    }

    fn remove_client(&mut self, current_account_id: &str, predecessor_account_id: &str, client_id: &String) -> (x: Vec<NearHeight>)
        ensures
            final(self).ibc_store().wf(),
            final(self).governance() == old(self).governance(),
            final(self).registry() == old(self).registry(),
            old(self).ibc_store().client_removed(final(self).ibc_store(), client_id@, x@),
    {
        self.try_remove_client(current_account_id, predecessor_account_id, client_id).unwrap()
    }

    fn remove_raw_client(&mut self, current_account_id: &str, predecessor_account_id: &str, client_id: &String)
        ensures
            final(self).ibc_store().wf(),
            final(self).governance() == old(self).governance(),
            final(self).registry() == old(self).registry(),
            old(self).ibc_store().raw_client_removed(final(self).ibc_store(), client_id@),
    {
        self.try_remove_raw_client(current_account_id, predecessor_account_id, client_id).unwrap()
    }

    fn remove_connection(&mut self, current_account_id: &str, predecessor_account_id: &str, connection_id: &String)
        ensures
            final(self).ibc_store().wf(),
            final(self).governance() == old(self).governance(),
            final(self).registry() == old(self).registry(),
            old(self).ibc_store().connection_removed(final(self).ibc_store(), connection_id@),
    {
        self.try_remove_connection(current_account_id, predecessor_account_id, connection_id).unwrap()
    }

    fn remove_channel(&mut self, current_account_id: &str, predecessor_account_id: &str, port_channel: &PortChannel) -> (x: (Vec<u64>, Vec<u64>, Vec<u64>))
        ensures
            final(self).ibc_store().wf(),
            final(self).governance() == old(self).governance(),
            final(self).registry() == old(self).registry(),
            old(self).ibc_store().channel_removed(final(self).ibc_store(), port_channel.key_view(), (x.0@, x.1@, x.2@)),
    {
        self.try_remove_channel(current_account_id, predecessor_account_id, port_channel).unwrap()
    }
}

/// The verifier of Ed25519 signatures that the Tendermint light clients use; it
/// checks signatures with the host's own function.
#[derive(Clone, Debug, Default)]
pub struct NearEd25519Verifier;

/// Why a signature is refused.
#[derive(Clone, Copy, Debug, PartialEq, Eq, Structural)]
pub enum SignatureError {
    MalformedSignature,
    MalformedPublicKey,
    VerificationFailed,
}

impl NearEd25519Verifier {
    /// Verifies the Ed25519 signature of a message under a public key: the
    /// signature must have 64 bytes, the key 32, and the signature must verify.
    pub fn verify(public_key: &[u8], msg: &[u8], signature: &[u8]) -> (r: Result<(), SignatureError>)
        ensures
            signature@.len() != 64 ==> r == Err::<(), SignatureError>(SignatureError::MalformedSignature),
            signature@.len() == 64 && public_key@.len() != 32 ==> r == Err::<(), SignatureError>(SignatureError::MalformedPublicKey),
            signature@.len() == 64 && public_key@.len() == 32 && !ed25519_signature_valid(signature@, msg@, public_key@)
                ==> r == Err::<(), SignatureError>(SignatureError::VerificationFailed),
            r is Ok <==> signature@.len() == 64 && public_key@.len() == 32 && ed25519_signature_valid(signature@, msg@, public_key@),
    {
        if signature.len() != 64 {
            return Err(SignatureError::MalformedSignature);
        }
        if public_key.len() != 32 {
            return Err(SignatureError::MalformedPublicKey);
        }
        if ed25519_verify(signature, msg, public_key) {
            Ok(())
        } else {
            Err(SignatureError::VerificationFailed)
        }
    }
}

/// The ICS-20 module of the IBC implementation.
pub struct TransferModule;

/// What sending coins between an escrow and an account leads to: settling the
/// pending request in the escrow that receives them, or a transfer from the
/// escrow that sends them, which costs one more yoctoNEAR of deposit.
pub enum SendCoinsAction {
    /// `apply_transfer_request(trace_path, base_denom, sender, amount)` on the
    /// receiving escrow.
    ApplyTransferRequest { call: ContractCall, trace_path: String, base_denom: String, sender: String, amount: u128 },
    /// `do_transfer(trace_path, base_denom, receiver, amount)` on the sending
    /// escrow; the yoctoNEAR it carries is added to the call's extra deposit cost.
    DoTransfer { call: ContractCall, trace_path: String, base_denom: String, receiver: String, amount: u128, extra_deposit: u128 },
}

/// The anchor of an appchain: the appchain id followed by the appchain registry.
pub open spec fn anchor_account_id(consumer_chain_id: Seq<char>, appchain_registry_account: Seq<char>) -> Seq<char> {
    consumer_chain_id + seq!['.'] + appchain_registry_account
}

/// The module of the IBC implementation that serves the Octopus appchains: what
/// their packets report goes on to the anchor of the appchain.
pub struct OctopusLposModule {
    pub appchain_registry_account: String,
}

impl OctopusLposModule {
    /// The module of the appchains that the registry registers.
    pub fn new(appchain_registry_account: String) -> (r: Self)
        ensures
            r.appchain_registry_account@ == appchain_registry_account@,
    {
        OctopusLposModule { appchain_registry_account }
    }

    /// A call on the anchor of an appchain with the given gas and no deposit; the
    /// anchor's id must be a valid account id.
    fn anchor_call(&self, consumer_chain_id: &str, gas: u64) -> (r: Result<ContractCall, NearIbcError>)
        ensures
            r is Ok <==> valid_account_id(anchor_account_id(consumer_chain_id@, self.appchain_registry_account@)),
            r is Err ==> r == Err::<ContractCall, NearIbcError>(NearIbcError::InvalidAnchorAccount),
            r matches Ok(c) ==> c.contract_id@ == anchor_account_id(consumer_chain_id@, self.appchain_registry_account@)
                && c.deposit == 0 && c.gas == gas,
    {
        let anchor = join_dot(consumer_chain_id, self.appchain_registry_account.as_str());
        proof {
            assert(anchor@ =~= anchor_account_id(consumer_chain_id@, self.appchain_registry_account@));
        }
        if parse_account_id(anchor.as_str()) {
            Ok(ContractCall { contract_id: anchor, deposit: 0, gas })
        } else {
            Err(NearIbcError::InvalidAnchorAccount)
        }
    }

    /// A slash packet of an appchain goes on to its anchor.
    pub fn slash_validator(&self, consumer_chain_id: &str) -> (r: Result<ContractCall, NearIbcError>)
        ensures
            r is Ok <==> valid_account_id(anchor_account_id(consumer_chain_id@, self.appchain_registry_account@)),
            r is Err ==> r == Err::<ContractCall, NearIbcError>(NearIbcError::InvalidAnchorAccount),
            r matches Ok(c) ==> c.contract_id@ == anchor_account_id(consumer_chain_id@, self.appchain_registry_account@)
                && c.deposit == 0 && c.gas == 10 * GAS_FOR_SIMPLE_FUNCTION_CALL,
    {
        self.anchor_call(consumer_chain_id, 10 * GAS_FOR_SIMPLE_FUNCTION_CALL)
    }

    /// A matured change of the validator set of an appchain goes on to its anchor.
    pub fn on_vsc_matured(&self, consumer_chain_id: &str) -> (r: Result<ContractCall, NearIbcError>)
        ensures
            r is Ok <==> valid_account_id(anchor_account_id(consumer_chain_id@, self.appchain_registry_account@)),
            r is Err ==> r == Err::<ContractCall, NearIbcError>(NearIbcError::InvalidAnchorAccount),
            r matches Ok(c) ==> c.contract_id@ == anchor_account_id(consumer_chain_id@, self.appchain_registry_account@)
                && c.deposit == 0 && c.gas == 6 * GAS_FOR_SIMPLE_FUNCTION_CALL,
    {
        self.anchor_call(consumer_chain_id, 6 * GAS_FOR_SIMPLE_FUNCTION_CALL)
    }

    /// A reward distribution of an appchain goes on to its anchor.
    pub fn distribute_reward(&self, consumer_chain_id: &str) -> (r: Result<ContractCall, NearIbcError>)
        ensures
            r is Ok <==> valid_account_id(anchor_account_id(consumer_chain_id@, self.appchain_registry_account@)),
            r is Err ==> r == Err::<ContractCall, NearIbcError>(NearIbcError::InvalidAnchorAccount),
            r matches Ok(c) ==> c.contract_id@ == anchor_account_id(consumer_chain_id@, self.appchain_registry_account@)
                && c.deposit == 0 && c.gas == 10 * GAS_FOR_SIMPLE_FUNCTION_CALL,
    {
        self.anchor_call(consumer_chain_id, 10 * GAS_FOR_SIMPLE_FUNCTION_CALL)
    }
}

/// The escrows of channels end with `.ef.transfer.` and the current account id.
pub open spec fn escrow_suffix(current_account_id: Seq<char>) -> Seq<char> {
    seq!['.', 'e', 'f', '.'] + "transfer"@ + seq!['.'] + current_account_id
}

impl TransferModule {
    /// The port of the module.
    pub fn get_port(&self) -> (r: String)
        ensures
            r@ == "transfer"@,
    {
        String::from_str(transfer_port_id())
    }

    /// The escrow account of a channel: the channel id, `ef`, the port id and the
    /// current account id, joined by dots; `None` when that is no valid account id.
    pub fn get_escrow_account(&self, current_account_id: &str, port_id: &str, channel_id: &str) -> (r: Option<String>)
        ensures
            ({
                let escrow = channel_id@ + seq!['.', 'e', 'f', '.'] + port_id@ + seq!['.'] + current_account_id@;
                &&& r is Some <==> valid_account_id(escrow)
                &&& r matches Some(a) ==> a@ == escrow
            }),
    {
        proof {
            reveal_strlit(".ef.");
        }
        let head = join2(channel_id, ".ef.");
        let mid = join2(head.as_str(), port_id);
        let escrow = join_dot(mid.as_str(), current_account_id);
        proof {
            assert(escrow@ =~= channel_id@ + seq!['.', 'e', 'f', '.'] + port_id@ + seq!['.'] + current_account_id@);
        }
        if parse_account_id(escrow.as_str()) {
            Some(escrow)
        } else {
            None
        }
    }

    /// Sending coins of the given denomination moves them into or out of an
    /// escrow: into one when the receiver is an escrow, settling the pending
    /// request there; else out of the sender, which must be one (the contract
    /// fails otherwise), by a transfer that carries one yoctoNEAR.
    pub fn send_coins_execute(
        &self,
        current_account_id: &str,
        from: &String,
        to: &String,
        trace_path: &String,
        base_denom: &String,
        amount: u128,
    ) -> (r: SendCoinsAction)
        requires
            is_suffix(escrow_suffix(current_account_id@), to@) || is_suffix(escrow_suffix(current_account_id@), from@),
        ensures
            is_suffix(escrow_suffix(current_account_id@), to@) ==> (r matches SendCoinsAction::ApplyTransferRequest { call, trace_path: t, base_denom: d, sender, amount: a }
                && call.contract_id@ == to@ && call.deposit == 0 && call.gas == GAS_FOR_SIMPLE_FUNCTION_CALL
                && t@ == trace_path@ && d@ == base_denom@ && sender@ == from@ && a == amount),
            !is_suffix(escrow_suffix(current_account_id@), to@) ==> (r matches SendCoinsAction::DoTransfer { call, trace_path: t, base_denom: d, receiver, amount: a, extra_deposit }
                && call.contract_id@ == from@ && call.deposit == 1 && call.gas == 4 * GAS_FOR_SIMPLE_FUNCTION_CALL
                && t@ == trace_path@ && d@ == base_denom@ && receiver@ == to@ && a == amount && extra_deposit == 1),
    {
        proof {
            reveal_strlit(".ef.");
        }
        let head = join2(".ef.", transfer_port_id());
        let suffix = join_dot(head.as_str(), current_account_id);
        proof {
            assert(suffix@ =~= escrow_suffix(current_account_id@));
        }
        if ends_with(to.as_str(), suffix.as_str()) {
            SendCoinsAction::ApplyTransferRequest {
                call: ContractCall { contract_id: to.clone(), deposit: 0, gas: GAS_FOR_SIMPLE_FUNCTION_CALL },
                trace_path: trace_path.clone(),
                base_denom: base_denom.clone(),
                sender: from.clone(),
                amount,
            }
        } else {
            SendCoinsAction::DoTransfer {
                call: ContractCall { contract_id: from.clone(), deposit: 1, gas: 4 * GAS_FOR_SIMPLE_FUNCTION_CALL },
                trace_path: trace_path.clone(),
                base_denom: base_denom.clone(),
                receiver: to.clone(),
                amount,
                extra_deposit: 1,
            }
        }
    }

    /// Burning coins settles the pending transfer request in the contract that
    /// handed the request over, the caller.
    pub fn burn_coins_execute(&self, predecessor_account_id: &str) -> (r: ContractCall)
        ensures
            r.contract_id@ == predecessor_account_id@,
            r.deposit == 0,
            r.gas == GAS_FOR_SIMPLE_FUNCTION_CALL,
    {
        ContractCall {
            contract_id: String::from_str(predecessor_account_id),
            deposit: 0,
            gas: GAS_FOR_SIMPLE_FUNCTION_CALL,
        }
    }

    /// Minting coins of another chain goes to the token factory, with the deposit
    /// for registering the owner in the token contract; `None` when the token
    /// factory's id is no valid account id.
    pub fn mint_coins_execute(&self, current_account_id: &str) -> (r: Option<ContractCall>)
        ensures
            r is Some <==> valid_account_id(token_factory_id(current_account_id@)),
            r matches Some(c) ==> {
                &&& c.contract_id@ == token_factory_id(current_account_id@)
                &&& c.deposit == STORAGE_DEPOSIT_FOR_MINT_TOKEN
                &&& c.gas == 8 * GAS_FOR_SIMPLE_FUNCTION_CALL
            },
    {
        match get_token_factory_contract_id(current_account_id) {
            Some(factory) => Some(ContractCall {
                contract_id: factory,
                deposit: STORAGE_DEPOSIT_FOR_MINT_TOKEN,
                gas: 8 * GAS_FOR_SIMPLE_FUNCTION_CALL,
            }),
            None => None,
        }
    }
}

/// The escrow account of a channel of the transfer port is an escrow to
/// `send_coins_execute`: it ends with `.ef.transfer.` and the current account id.
pub proof fn law_escrow_account_is_escrow(current_account_id: Seq<char>, channel_id: Seq<char>)
    ensures
        is_suffix(escrow_suffix(current_account_id), channel_id + seq!['.', 'e', 'f', '.'] + "transfer"@ + seq!['.'] + current_account_id),
{
    let suffix = escrow_suffix(current_account_id);
    let whole = channel_id + seq!['.', 'e', 'f', '.'] + "transfer"@ + seq!['.'] + current_account_id;
    assert(whole =~= channel_id + suffix);
    assert(whole.subrange(whole.len() - suffix.len(), whole.len() as int) =~= suffix);
}

/// The token factory and the escrow factory are sub-accounts of the IBC
/// implementation's account, so the calls that it makes pass their checks of an
/// upper-level caller; the escrow of a channel is a sub-account of the escrow
/// factory, so the calls of the escrow factory pass the escrow's check of its
/// parent when the channel id has no dot.
pub proof fn law_factories_are_sub_accounts(current_account_id: Seq<char>, channel_id: Seq<char>)
    ensures
        is_sub_account_of(token_factory_id(current_account_id), current_account_id),
        is_sub_account_of(escrow_factory_id(current_account_id), current_account_id),
        char_count(channel_id, '.') == 0 ==> crate::accounts::parent_account_of(channel_escrow_id(current_account_id, channel_id))
            == escrow_factory_id(current_account_id),
{
    let tf = token_factory_id(current_account_id);
    let ef = escrow_factory_id(current_account_id);
    let sfx = seq!['.'] + current_account_id;
    assert(tf =~= (seq!['t', 'f', '.'] + "transfer"@) + sfx);
    assert(tf.subrange(tf.len() - sfx.len(), tf.len() as int) =~= sfx);
    assert(ef =~= (seq!['e', 'f', '.'] + "transfer"@) + sfx);
    assert(ef.subrange(ef.len() - sfx.len(), ef.len() as int) =~= sfx);
    if char_count(channel_id, '.') == 0 {
        let e = channel_escrow_id(current_account_id, channel_id);
        let n = channel_id.len() as int;
        assert(e =~= channel_id + (seq!['.'] + ef));
        assert(e.subrange(0, n) =~= channel_id);
        assert(e[n] == '.');
        lemma_no_char_count_zero(channel_id, '.');
        assert(crate::text::is_nth_char(e, '.', 0, n));
        let i = choose|i: int| crate::text::is_nth_char(e, '.', 0, i);
        crate::text::lemma_nth_char_unique(e, '.', 0, i, n);
        assert(e.subrange(n + 1, e.len() as int) =~= ef);
    }
}

/// A text without `c` has none of it.
proof fn lemma_no_char_count_zero(s: Seq<char>, c: char)
    requires
        char_count(s, c) == 0,
    ensures
        forall|i: int| 0 <= i < s.len() ==> s[i] != c,
    decreases s.len(),
{
    if s.len() > 0 {
        lemma_no_char_count_zero(s.drop_last(), c);
        assert forall|i: int| 0 <= i < s.len() implies s[i] != c by {
            if i < s.len() - 1 {
                assert(s.drop_last()[i] == s[i]);
            }
        }
    }
}

} // verus!
