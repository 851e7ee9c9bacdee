use vstd::prelude::*;
use crate::outside::{decimal_value, is_decimal_digit, is_white_space, parse_amount, parse_base_denom, parse_trace_path, trace_path_parse};
use crate::text::same_text;
use crate::view_map::KeyView;

verus! {

/// The outcome of a task that may have to be continued in a later call.
#[derive(Clone, Debug)]
pub enum ProcessingResult {
    /// The task stopped before it was done; call again to go on.
    NeedMoreGas,
    /// The task is done.
    Done,
    /// The task failed.
    Error(String),
}

} // verus!

verus! {

/// The denomination of an asset in ICS-20: a trace path and a base denomination.
pub struct AssetDenom {
    pub trace_path: String,
    pub base_denom: String,
}

impl KeyView for AssetDenom {
    type V = (Seq<char>, Seq<char>);

    open spec fn key_view(&self) -> (Seq<char>, Seq<char>) {
        (self.trace_path@, self.base_denom@)
    }

    fn same_key_as(&self, other: &Self) -> (r: bool) {
        same_text(self.trace_path.as_str(), other.trace_path.as_str()) && same_text(
            self.base_denom.as_str(),
            other.base_denom.as_str(),
        )
    }

    fn duplicate(&self) -> (r: Self) {
        AssetDenom { trace_path: self.trace_path.clone(), base_denom: self.base_denom.clone() }
    }
}

/// A transfer request of ICS-20 that a token holder's contract hands to the IBC
/// implementation.
pub struct Ics20TransferRequest {
    pub port_on_a: String,
    pub chan_on_a: String,
    pub token_trace_path: String,
    pub token_denom: String,
    pub amount: u128,
    pub sender: String,
    pub receiver: String,
    pub timeout_seconds: Option<u64>,
}

impl Ics20TransferRequest {
    /// A copy of the request.
    pub fn copied(&self) -> (r: Self)
        ensures
            r == *self,
    {
        Ics20TransferRequest {
            port_on_a: self.port_on_a.clone(),
            chan_on_a: self.chan_on_a.clone(),
            token_trace_path: self.token_trace_path.clone(),
            token_denom: self.token_denom.clone(),
            amount: self.amount,
            sender: self.sender.clone(),
            receiver: self.receiver.clone(),
            timeout_seconds: self.timeout_seconds,
        }
    }
}

/// An asset received from another chain, with the id of its token contract.
pub struct CrossChainAsset<M> {
    pub asset_id: String,
    pub asset_denom: AssetDenom,
    pub metadata: M,
}

/// The data of an ICS-20 fungible token packet as it arrives.
pub struct FtPacketData {
    /// The token denomination to be transferred.
    pub denom: String,
    /// The token amount to be transferred.
    pub amount: String,
    /// The sender address.
    pub sender: String,
    /// The recipient address on the destination chain.
    pub receiver: String,
    /// Optional memo.
    pub memo: String,
}

/// A height condition of a query.
pub enum Qualified<T> {
    SmallerEqual(T),
    Equal(T),
}

/// Raw bytes as they are kept in storage.
pub struct StoreInNear(pub Vec<u8>);

impl StoreInNear {
    pub fn from_bytes(data: Vec<u8>) -> (r: Self)
        ensures
            r.0 == data,
    {
        StoreInNear(data)
    }
}

/// The receipt of a received packet.
#[derive(Clone, Copy, Debug, PartialEq, Eq, Structural)]
pub enum Receipt {
    /// The packet was received.
    Received,
}

} // verus!

verus! {

/// Contracts whose stored state changed shape between versions: the current
/// state is built from the state that the older version stored.
pub trait StorageMigration: Sized {
    /// The state as the older version stored it.
    type Old;

    /// The older state is well formed.
    spec fn old_wf(old: &Self::Old) -> bool;

    fn migrate_state(old: Self::Old) -> Self
        requires
            Self::old_wf(&old),
    ;
}

/// The coins of a transfer as a request names them.
pub struct TransferringCoins {
    pub trace_path: String,
    pub base_denom: String,
    pub amount: String,
}

/// The part of the coins of a transfer that the `ibc` crate cannot read.
#[derive(Clone, Copy, Debug, PartialEq, Eq, Structural)]
pub enum CoinsError {
    InvalidTracePath,
    InvalidBaseDenom,
    InvalidAmount,
}

impl CoinsError {
    /// The message of the error.
    pub fn message(&self) -> (r: &'static str)
        ensures
            r@ == self.message_text(),
    {
        match self {
            CoinsError::InvalidTracePath => "ERR_INVALID_TRACE_PATH",
            CoinsError::InvalidBaseDenom => "ERR_INVALID_BASE_DENOM",
            CoinsError::InvalidAmount => "ERR_INVALID_AMOUNT",
        }
    }

    /// The message of the error, as text.
    pub open spec fn message_text(&self) -> Seq<char> {
        match self {
            CoinsError::InvalidTracePath => "ERR_INVALID_TRACE_PATH"@,
            CoinsError::InvalidBaseDenom => "ERR_INVALID_BASE_DENOM"@,
            CoinsError::InvalidAmount => "ERR_INVALID_AMOUNT"@,
        }
    }
}

/// The base denomination is not white space only.
pub open spec fn base_denom_readable(denom: Seq<char>) -> bool {
    exists|i: int| 0 <= i < denom.len() && !is_white_space(#[trigger] denom[i])
}

/// The amount is a decimal number below 2^256.
pub open spec fn amount_readable(amount: Seq<char>) -> bool {
    (forall|i: int| 0 <= i < amount.len() ==> is_decimal_digit(#[trigger] amount[i]))
        && decimal_value(amount) < vstd::arithmetic::power2::pow2(256)
}

impl TransferringCoins {
    /// Checks that the `ibc` crate can read the coins as a prefixed coin: their
    /// trace path, their base denomination and their amount, in this order; the
    /// error names the first part that it cannot read.
    pub fn check(&self) -> (r: Result<(), CoinsError>)
        ensures
            trace_path_parse(self.trace_path@) is None ==> r == Err::<(), CoinsError>(CoinsError::InvalidTracePath),
            trace_path_parse(self.trace_path@) is Some && !base_denom_readable(self.base_denom@)
                ==> r == Err::<(), CoinsError>(CoinsError::InvalidBaseDenom),
            trace_path_parse(self.trace_path@) is Some && base_denom_readable(self.base_denom@) && !amount_readable(self.amount@)
                ==> r == Err::<(), CoinsError>(CoinsError::InvalidAmount),
            r is Ok <==> trace_path_parse(self.trace_path@) is Some && base_denom_readable(self.base_denom@)
                && amount_readable(self.amount@),
    {
        match parse_trace_path(self.trace_path.as_str()) {
            Some(_) => {},
            None => { return Err(CoinsError::InvalidTracePath); },
        }
        if !parse_base_denom(self.base_denom.as_str()) {
            return Err(CoinsError::InvalidBaseDenom);
        }
        if !parse_amount(self.amount.as_str()) {
            return Err(CoinsError::InvalidAmount);
        }
        Ok(())
    }
}

/// The public key of a validator, with the prefix byte of its key type first,
/// and the validator's voting power.
pub struct ValidatorKeyAndPower {
    pub public_key: Vec<u8>,
    pub power: u64,
}

/// A change of the validator set of an appchain, as its anchor hands it over:
/// the validators with their powers, the id of the set, and the slash
/// acknowledgements.
pub struct VscPacketData {
    pub validator_pubkeys: Vec<ValidatorKeyAndPower>,
    pub validator_set_id: u64,
    pub slash_acks: Vec<Vec<u8>>,
}

} // verus!
