use vstd::prelude::*;
use vstd::string::*;
use near_contract_standards::fungible_token::FungibleToken;
use crate::accounts::{assert_parent_account, parent_account_of, valid_account_id};
use crate::ledger::{
    ft_balances, ft_total_supply, ledger_balance, ledger_deposit, ledger_new, ledger_register,
    ledger_total_supply, ledger_withdraw, ledger_account_storage_usage, moved,
};
use crate::outside::{parse_trace_path, trace_path_parse};
use crate::text::{char_count, count_char, ends_with, same_text, split_part, text_split_part};
use crate::types::Ics20TransferRequest;
use crate::view_map::ViewMap;

verus! {

/// Why the wrapped token contract refuses a call.
#[derive(Clone, Copy, Debug, PartialEq, Eq, Structural)]
pub enum WrappedTokenError {
    ContractMustBeDeployedInSubAccountOfFactory,
    InvalidMetadata,
    NearIbcAccountMustHaveSameRootAccount,
    InvalidTracePath,
    TracePathMustNotBeEmpty,
    AmountMustBeGreaterThanZero,
    NotEnoughBalance,
    PendingTransferRequestExists,
    NoPendingTransferRequest,
    PendingTransferRequestNotMatched,
    NotNearIbcAccount,
    NotParentAccount,
    NotEnoughDeposit,
    AccountAlreadyRegistered,
    AccountNotRegistered,
    AccountBalanceTooLow,
    BalanceOverflow,
    TotalSupplyOverflow,
    NotEnoughStorageDeposit,
}

impl WrappedTokenError {
    /// The message that the contract fails with.
    pub fn message(&self) -> (r: &'static str)
        ensures
            r@ == self.message_text(),
    {
        match self {
            WrappedTokenError::ContractMustBeDeployedInSubAccountOfFactory => "ERR_CONTRACT_MUST_BE_DEPLOYED_IN_SUB_ACCOUNT_OF_FACTORY",
            WrappedTokenError::InvalidMetadata => "ERR_INVALID_METADATA",
            WrappedTokenError::NearIbcAccountMustHaveSameRootAccount => "ERR_NEAR_IBC_ACCOUNT_MUST_HAVE_THE_SAME_ROOT_ACOUNT_AS_CURRENT_ACCOUNT",
            WrappedTokenError::InvalidTracePath => "ERR_INVALID_TRACE_PATH",
            WrappedTokenError::TracePathMustNotBeEmpty => "ERR_TRACE_PATH_MUST_NOT_BE_EMPTY",
            WrappedTokenError::AmountMustBeGreaterThanZero => "ERR_AMOUNT_MUST_BE_GREATER_THAN_ZERO",
            WrappedTokenError::NotEnoughBalance => "ERR_NOT_ENOUGH_BALANCE",
            WrappedTokenError::PendingTransferRequestExists => "ERR_PENDING_TRANSFER_REQUEST_EXISTS",
            WrappedTokenError::NoPendingTransferRequest => "ERR_NO_PENDING_TRANSFER_REQUEST",
            WrappedTokenError::PendingTransferRequestNotMatched => "ERR_PENDING_TRANSFER_REQUEST_NOT_MATCHED",
            WrappedTokenError::NotNearIbcAccount => "ERR_ONLY_NEAR_IBC_ACCOUNT_CAN_CALL_THIS_METHOD",
            WrappedTokenError::NotParentAccount => "ERR_ONLY_PARENT_ACCOUNT_CAN_CALL_THIS_METHOD",
            WrappedTokenError::NotEnoughDeposit => "ERR_NOT_ENOUGH_DEPOSIT",
            WrappedTokenError::AccountAlreadyRegistered => "The account is already registered",
            WrappedTokenError::AccountNotRegistered => "The account is not registered",
            WrappedTokenError::AccountBalanceTooLow => "The account doesn't have enough balance",
            WrappedTokenError::BalanceOverflow => "Balance overflow",
            WrappedTokenError::TotalSupplyOverflow => "Total supply overflow",
            WrappedTokenError::NotEnoughStorageDeposit => "The attached deposit is less than the minimum storage balance",
        }
    }

    /// The message of the error, as text.
    pub open spec fn message_text(&self) -> Seq<char> {
        match self {
            WrappedTokenError::ContractMustBeDeployedInSubAccountOfFactory => "ERR_CONTRACT_MUST_BE_DEPLOYED_IN_SUB_ACCOUNT_OF_FACTORY"@,
            WrappedTokenError::InvalidMetadata => "ERR_INVALID_METADATA"@,
            WrappedTokenError::NearIbcAccountMustHaveSameRootAccount => "ERR_NEAR_IBC_ACCOUNT_MUST_HAVE_THE_SAME_ROOT_ACOUNT_AS_CURRENT_ACCOUNT"@,
            WrappedTokenError::InvalidTracePath => "ERR_INVALID_TRACE_PATH"@,
            WrappedTokenError::TracePathMustNotBeEmpty => "ERR_TRACE_PATH_MUST_NOT_BE_EMPTY"@,
            WrappedTokenError::AmountMustBeGreaterThanZero => "ERR_AMOUNT_MUST_BE_GREATER_THAN_ZERO"@,
            WrappedTokenError::NotEnoughBalance => "ERR_NOT_ENOUGH_BALANCE"@,
            WrappedTokenError::PendingTransferRequestExists => "ERR_PENDING_TRANSFER_REQUEST_EXISTS"@,
            WrappedTokenError::NoPendingTransferRequest => "ERR_NO_PENDING_TRANSFER_REQUEST"@,
            WrappedTokenError::PendingTransferRequestNotMatched => "ERR_PENDING_TRANSFER_REQUEST_NOT_MATCHED"@,
            WrappedTokenError::NotNearIbcAccount => "ERR_ONLY_NEAR_IBC_ACCOUNT_CAN_CALL_THIS_METHOD"@,
            WrappedTokenError::NotParentAccount => "ERR_ONLY_PARENT_ACCOUNT_CAN_CALL_THIS_METHOD"@,
            WrappedTokenError::NotEnoughDeposit => "ERR_NOT_ENOUGH_DEPOSIT"@,
            WrappedTokenError::AccountAlreadyRegistered => "The account is already registered"@,
            WrappedTokenError::AccountNotRegistered => "The account is not registered"@,
            WrappedTokenError::AccountBalanceTooLow => "The account doesn't have enough balance"@,
            WrappedTokenError::BalanceOverflow => "Balance overflow"@,
            WrappedTokenError::TotalSupplyOverflow => "Total supply overflow"@,
            WrappedTokenError::NotEnoughStorageDeposit => "The attached deposit is less than the minimum storage balance"@,
        }
    }
}

/// The metadata of a NEP-141 token.
pub struct TokenMetadata {
    pub spec: String,
    pub name: String,
    pub symbol: String,
    pub icon: Option<String>,
    pub reference: Option<String>,
    pub reference_hash: Option<Vec<u8>>,
    pub decimals: u8,
}

/// The version of the metadata standard that a token must declare.
pub open spec fn ft_metadata_spec() -> Seq<char> {
    seq!['f', 't', '-', '1', '.', '0', '.', '0']
}

/// The metadata declares the standard's version, has a reference exactly when it
/// has a reference hash, and a hash has 32 bytes.
pub open spec fn metadata_valid(m: TokenMetadata) -> bool {
    &&& m.spec@ == ft_metadata_spec()
    &&& m.reference.is_some() == m.reference_hash.is_some()
    &&& (m.reference_hash matches Some(h) ==> h@.len() == 32)
}

/// Two metadata records hold the same values.
pub open spec fn same_metadata(a: TokenMetadata, b: TokenMetadata) -> bool {
    &&& a.spec@ == b.spec@
    &&& a.name@ == b.name@
    &&& a.symbol@ == b.symbol@
    &&& a.icon.is_some() == b.icon.is_some()
    &&& (a.icon.is_some() ==> a.icon.unwrap()@ == b.icon.unwrap()@)
    &&& a.reference.is_some() == b.reference.is_some()
    &&& (a.reference.is_some() ==> a.reference.unwrap()@ == b.reference.unwrap()@)
    &&& a.reference_hash.is_some() == b.reference_hash.is_some()
    &&& (a.reference_hash.is_some() ==> a.reference_hash.unwrap()@ == b.reference_hash.unwrap()@)
    &&& a.decimals == b.decimals
}

fn copy_text(s: &Option<String>) -> (r: Option<String>)
    ensures
        r.is_some() == s.is_some(),
        r.is_some() ==> r.unwrap()@ == s.unwrap()@,
{
    match s {
        Some(t) => Some(t.clone()),
        None => None,
    }
}

impl TokenMetadata {
    /// Whether the metadata is valid, as `FungibleTokenMetadata::assert_valid` of
    /// near-contract-standards checks it.
    pub fn is_valid(&self) -> (r: bool)
        ensures
            r == metadata_valid(*self),
    {
        proof {
            reveal_strlit("ft-1.0.0");
            assert("ft-1.0.0"@ =~= ft_metadata_spec());
        }
        if !same_text(self.spec.as_str(), "ft-1.0.0") {
            return false;
        }
        if self.reference.is_some() != self.reference_hash.is_some() {
            return false;
        }
        match &self.reference_hash {
            Some(h) => h.len() == 32,
            None => true,
        }
    }

    /// A copy of the metadata.
    pub fn copied(&self) -> (r: Self)
        ensures
            same_metadata(r, *self),
    {
        TokenMetadata {
            spec: self.spec.clone(),
            name: self.name.clone(),
            symbol: self.symbol.clone(),
            icon: copy_text(&self.icon),
            reference: copy_text(&self.reference),
            reference_hash: match &self.reference_hash {
                Some(h) => Some(h.clone()),
                None => None,
            },
            decimals: self.decimals,
        }
    }
}

/// The request that a holder's transfer makes for the wrapped token.
pub open spec fn wrapped_request(
    req: Ics20TransferRequest,
    trace_path: Seq<char>,
    base_denom: Seq<char>,
    sender: Seq<char>,
    receiver: Seq<char>,
    amount: u128,
    timeout_seconds: Option<u64>,
) -> bool {
    &&& req.port_on_a@ == split_part(trace_path, '/', 0)
    &&& req.chan_on_a@ == split_part(trace_path, '/', 1)
    &&& req.token_trace_path@ == trace_path
    &&& req.token_denom@ == base_denom
    &&& req.amount == amount
    &&& req.sender@ == sender
    &&& req.receiver@ == receiver
    &&& req.timeout_seconds == timeout_seconds
}

/// The request matches a transfer of `amount` of the given denomination.
pub open spec fn request_matches(req: Ics20TransferRequest, trace_path: Seq<char>, base_denom: Seq<char>, amount: u128) -> bool {
    req.amount == amount && req.token_denom@ == base_denom && req.token_trace_path@ == trace_path
}

/// The NEP-141 token that stands on NEAR for a token of another chain: its
/// ledger of balances, its metadata, its denomination in ICS-20, and the transfer
/// requests of holders that wait for the IBC implementation.
pub struct Contract {
    token: FungibleToken,
    account_storage_usage: u64,
    current_account_id: String,
    metadata: TokenMetadata,
    trace_path: String,
    base_denom: String,
    near_ibc_account: String,
    pending_transfer_requests: ViewMap<String, Ics20TransferRequest>,
}

impl Contract {
    pub closed spec fn wf(&self) -> bool {
        &&& self.pending_transfer_requests.wf()
        &&& char_count(self.trace_path@, '/') >= 1
        &&& valid_account_id(self.current_account_id@)
        &&& char_count(self.current_account_id@, '.') >= 3
        &&& self.balances().contains_key(self.current_account_id@)
    }

    /// The account of the token contract itself.
    pub closed spec fn account(&self) -> Seq<char> {
        self.current_account_id@
    }

    /// The balance of each registered account.
    pub closed spec fn balances(&self) -> Map<Seq<char>, u128> {
        ft_balances(self.token)
    }

    /// The storage, in bytes, that the ledger measured for one account.
    pub closed spec fn account_storage_usage(&self) -> u64 {
        self.account_storage_usage
    }

    /// What the ledger asks to register an account: its storage at the given
    /// price per byte, saturating at `u128::MAX`.
    pub open spec fn min_storage_balance(&self, storage_byte_cost: u128) -> u128 {
        if storage_byte_cost * self.account_storage_usage() > u128::MAX {
            u128::MAX
        } else {
            (storage_byte_cost * self.account_storage_usage()) as u128
        }
    }

    /// The total supply of the token.
    pub closed spec fn total_supply(&self) -> u128 {
        ft_total_supply(self.token)
    }

    /// The balance of an account, zero for one that is not registered.
    pub open spec fn balance_of(&self, account_id: Seq<char>) -> u128 {
        if self.balances().contains_key(account_id) { self.balances()[account_id] } else { 0 }
    }

    /// Moving `amount` from `from` to `to` keeps the balance of `to` within `u128`.
    pub open spec fn move_fits(&self, from: Seq<char>, to: Seq<char>, amount: u128) -> bool {
        self.balances().insert(from, (self.balances()[from] - amount) as u128)[to] + amount <= u128::MAX
    }

    pub closed spec fn trace_path(&self) -> Seq<char> {
        self.trace_path@
    }

    pub closed spec fn base_denom(&self) -> Seq<char> {
        self.base_denom@
    }

    pub closed spec fn ibc_account(&self) -> Seq<char> {
        self.near_ibc_account@
    }

    pub closed spec fn metadata(&self) -> TokenMetadata {
        self.metadata
    }

    /// The pending transfer request of each holder.
    pub closed spec fn pending(&self) -> Map<Seq<char>, Ics20TransferRequest> {
        self.pending_transfer_requests@
    }

    /// The holders with a pending request, in the order in which their requests came.
    pub closed spec fn pending_accounts(&self) -> Seq<Seq<char>> {
        self.pending_transfer_requests.key_views()
    }

    /// A new wrapped token, with what `TracePath::from_str` made of the trace path
    /// (`None` when it refused it, else whether the path is empty). The ledger is
    /// created and registers the token's own account; the ledger refuses that
    /// account when the storage already registers it.
    pub fn new_with_parsed_trace_path(
        current_account_id: &str,
        metadata: TokenMetadata,
        trace_path: String,
        base_denom: String,
        near_ibc_account: String,
        parsed_trace_path: Option<bool>,
    ) -> (r: Result<Contract, WrappedTokenError>)
        requires
            valid_account_id(current_account_id@),
            parsed_trace_path == Some(false) ==> char_count(trace_path@, '/') >= 1,
        ensures
            char_count(current_account_id@, '.') < 3 ==> r == Err::<Contract, WrappedTokenError>(WrappedTokenError::ContractMustBeDeployedInSubAccountOfFactory),
            char_count(current_account_id@, '.') >= 3 && !metadata_valid(metadata)
                ==> r == Err::<Contract, WrappedTokenError>(WrappedTokenError::InvalidMetadata),
            char_count(current_account_id@, '.') >= 3 && metadata_valid(metadata)
                && !is_suffix(near_ibc_account@, current_account_id@)
                ==> r == Err::<Contract, WrappedTokenError>(WrappedTokenError::NearIbcAccountMustHaveSameRootAccount),
            char_count(current_account_id@, '.') >= 3 && metadata_valid(metadata)
                && is_suffix(near_ibc_account@, current_account_id@) && parsed_trace_path is None
                ==> r == Err::<Contract, WrappedTokenError>(WrappedTokenError::InvalidTracePath),
            char_count(current_account_id@, '.') >= 3 && metadata_valid(metadata)
                && is_suffix(near_ibc_account@, current_account_id@) && parsed_trace_path == Some(true)
                ==> r == Err::<Contract, WrappedTokenError>(WrappedTokenError::TracePathMustNotBeEmpty),
            char_count(current_account_id@, '.') >= 3 && metadata_valid(metadata)
                && is_suffix(near_ibc_account@, current_account_id@) && parsed_trace_path == Some(false)
                ==> (r is Ok || r == Err::<Contract, WrappedTokenError>(WrappedTokenError::AccountAlreadyRegistered)),
            r matches Ok(c) ==> {
                &&& c.wf()
                &&& c.account() == current_account_id@
                &&& c.trace_path() == trace_path@
                &&& c.base_denom() == base_denom@
                &&& c.ibc_account() == near_ibc_account@
                &&& same_metadata(c.metadata(), metadata)
                &&& c.pending() == Map::<Seq<char>, Ics20TransferRequest>::empty()
                &&& c.balances()[current_account_id@] == 0
                &&& c.total_supply() == 0
            },
    {
        if count_char(current_account_id, '.') < 3 {
            return Err(WrappedTokenError::ContractMustBeDeployedInSubAccountOfFactory);
        }
        if !metadata.is_valid() {
            return Err(WrappedTokenError::InvalidMetadata);
        }
        if !ends_with(current_account_id, near_ibc_account.as_str()) {
            return Err(WrappedTokenError::NearIbcAccountMustHaveSameRootAccount);
        }
        match parsed_trace_path {
            None => { return Err(WrappedTokenError::InvalidTracePath); },
            Some(true) => { return Err(WrappedTokenError::TracePathMustNotBeEmpty); },
            Some(false) => {},
        }
        let mut token = ledger_new();
        if ledger_balance(&token, current_account_id).is_some() {
            return Err(WrappedTokenError::AccountAlreadyRegistered);
        }
        ledger_register(&mut token, current_account_id);
        let account_storage_usage = ledger_account_storage_usage(&token);
        let c = Contract {
            token,
            account_storage_usage,
            current_account_id: current_account_id.to_string(),
            metadata,
            trace_path,
            base_denom,
            near_ibc_account,
            pending_transfer_requests: ViewMap::new(),
        };
        Ok(c)
    }

    /// A new wrapped token, for a current account with at least four parts that
    /// ends with the account of the IBC implementation, valid metadata and a trace
    /// path that parses as an ICS-20 trace path with a prefix (the contract fails
    /// to initialise on any other). The ledger is created and registers the
    /// token's own account; the only error left is the ledger's refusal when the
    /// storage already registers that account.
    pub fn new(
        current_account_id: &str,
        metadata: TokenMetadata,
        trace_path: String,
        base_denom: String,
        near_ibc_account: String,
    ) -> (r: Result<Contract, WrappedTokenError>)
        requires
            valid_account_id(current_account_id@),
            char_count(current_account_id@, '.') >= 3,
            metadata_valid(metadata),
            is_suffix(near_ibc_account@, current_account_id@),
            trace_path_parse(trace_path@) == Some(false),
        ensures
            r is Err ==> r == Err::<Contract, WrappedTokenError>(WrappedTokenError::AccountAlreadyRegistered),
            r matches Ok(c) ==> {
                &&& c.wf()
                &&& c.account() == current_account_id@
                &&& c.trace_path() == trace_path@
                &&& c.base_denom() == base_denom@
                &&& c.ibc_account() == near_ibc_account@
                &&& same_metadata(c.metadata(), metadata)
                &&& c.pending() == Map::<Seq<char>, Ics20TransferRequest>::empty()
                &&& c.balances()[current_account_id@] == 0
                &&& c.total_supply() == 0
            },
    {
        Self::try_new(current_account_id, metadata, trace_path, base_denom, near_ibc_account)
    }

    /// The checked form of `new`: the error with which the contract fails to
    /// initialise where `new` does not apply, else what `new` gives.
    ///
    /// A new wrapped token. The current account must have at least four parts and
    /// end with the account of the IBC implementation; the metadata must be valid;
    /// the trace path must parse as an ICS-20 trace path with a prefix.
    pub fn try_new(
        current_account_id: &str,
        metadata: TokenMetadata,
        trace_path: String,
        base_denom: String,
        near_ibc_account: String,
    ) -> (r: Result<Contract, WrappedTokenError>)
        requires
            valid_account_id(current_account_id@),
        ensures
            r is Ok ==> char_count(current_account_id@, '.') >= 3 && metadata_valid(metadata)
                && is_suffix(near_ibc_account@, current_account_id@) && trace_path_parse(trace_path@) == Some(false),
            r is Err ==> r == Err::<Contract, WrappedTokenError>(if char_count(current_account_id@, '.') < 3 {
                WrappedTokenError::ContractMustBeDeployedInSubAccountOfFactory
            } else if !metadata_valid(metadata) {
                WrappedTokenError::InvalidMetadata
            } else if !is_suffix(near_ibc_account@, current_account_id@) {
                WrappedTokenError::NearIbcAccountMustHaveSameRootAccount
            } else if trace_path_parse(trace_path@) is None {
                WrappedTokenError::InvalidTracePath
            } else if trace_path_parse(trace_path@) == Some(true) {
                WrappedTokenError::TracePathMustNotBeEmpty
            } else {
                WrappedTokenError::AccountAlreadyRegistered
            }),
            r matches Ok(c) ==> {
                &&& c.wf()
                &&& c.account() == current_account_id@
                &&& c.trace_path() == trace_path@
                &&& c.base_denom() == base_denom@
                &&& c.ibc_account() == near_ibc_account@
                &&& same_metadata(c.metadata(), metadata)
                &&& c.pending() == Map::<Seq<char>, Ics20TransferRequest>::empty()
                &&& c.balances()[current_account_id@] == 0
                &&& c.total_supply() == 0
            },
    {
        let parsed = parse_trace_path(trace_path.as_str());
        proof {
            assert(parsed is None || parsed == Some(true) || parsed == Some(false));
        }
        Self::new_with_parsed_trace_path(current_account_id, metadata, trace_path, base_denom, near_ibc_account, parsed)
    }

    /// The predecessor must be the account of the IBC implementation.
    pub fn assert_near_ibc_account(&self, predecessor_account_id: &str) -> (r: Result<(), WrappedTokenError>)
        ensures
            r is Ok <==> predecessor_account_id@ == self.ibc_account(),
            r is Err ==> r == Err::<(), WrappedTokenError>(WrappedTokenError::NotNearIbcAccount),
    {
        if same_text(self.near_ibc_account.as_str(), predecessor_account_id) {
            Ok(())
        } else {
            Err(WrappedTokenError::NotNearIbcAccount)
        }
    }

    /// The account of the IBC implementation.
    pub fn near_ibc_account(&self) -> (r: String)
        ensures
            r@ == self.ibc_account(),
    {
        self.near_ibc_account.clone()
    }

    /// The metadata of the token.
    pub fn ft_metadata(&self) -> (r: TokenMetadata)
        ensures
            same_metadata(r, self.metadata()),
    {
        self.metadata.copied()
    }

    /// The balance of an account, as `ft_balance_of` gives it.
    pub fn ft_balance_of(&self, account_id: &str) -> (r: u128)
        requires
            valid_account_id(account_id@),
        ensures
            r == self.balance_of(account_id@),
    {
        match ledger_balance(&self.token, account_id) {
            Some(b) => b,
            None => 0,
        }
    }

    /// The total supply of the token, as `ft_total_supply` gives it.
    pub fn ft_total_supply(&self) -> (r: u128)
        ensures
            r == self.total_supply(),
    {
        ledger_total_supply(&self.token)
    }

    /// The checked form of `request_transfer`: the error with which the contract fails on a call that `request_transfer` does not take, else what `request_transfer` does.
    ///
    /// A holder asks to send `amount` of the token back to the chain it came from.
    /// Returns the request that goes to the IBC implementation, which the contract
    /// records as pending; the amount moves from the holder to the contract's own
    /// account, where it stays locked until the request is settled. The total
    /// supply stays.
    pub fn try_request_transfer(
        &mut self,
        sender_id: String,
        receiver_id: String,
        amount: u128,
        timeout_seconds: Option<u64>,
    ) -> (r: Result<Ics20TransferRequest, WrappedTokenError>)
        requires
            old(self).wf(),
            valid_account_id(sender_id@),
        ensures
            final(self).wf(),
            final(self).account() == old(self).account(),
            final(self).account_storage_usage() == old(self).account_storage_usage(),
            final(self).trace_path() == old(self).trace_path(),
            final(self).base_denom() == old(self).base_denom(),
            final(self).ibc_account() == old(self).ibc_account(),
            final(self).metadata() == old(self).metadata(),
            final(self).total_supply() == old(self).total_supply(),
            amount == 0 ==> r == Err::<Ics20TransferRequest, WrappedTokenError>(WrappedTokenError::AmountMustBeGreaterThanZero),
            amount > 0 && old(self).balance_of(sender_id@) < amount
                ==> r == Err::<Ics20TransferRequest, WrappedTokenError>(WrappedTokenError::NotEnoughBalance),
            amount > 0 && old(self).balance_of(sender_id@) >= amount && old(self).pending().contains_key(sender_id@)
                ==> r == Err::<Ics20TransferRequest, WrappedTokenError>(WrappedTokenError::PendingTransferRequestExists),
            amount > 0 && old(self).balance_of(sender_id@) >= amount && !old(self).pending().contains_key(sender_id@)
                && old(self).total_supply() < amount
                ==> r == Err::<Ics20TransferRequest, WrappedTokenError>(WrappedTokenError::TotalSupplyOverflow),
            amount > 0 && old(self).balance_of(sender_id@) >= amount && !old(self).pending().contains_key(sender_id@)
                && old(self).total_supply() >= amount && !old(self).move_fits(sender_id@, old(self).account(), amount)
                ==> r == Err::<Ics20TransferRequest, WrappedTokenError>(WrappedTokenError::BalanceOverflow),
            r is Ok <==> amount > 0 && old(self).balance_of(sender_id@) >= amount && !old(self).pending().contains_key(sender_id@)
                && old(self).total_supply() >= amount && old(self).move_fits(sender_id@, old(self).account(), amount),
            r is Err ==> final(self).pending() == old(self).pending() && final(self).balances() == old(self).balances(),
            r matches Ok(req) ==> {
                &&& wrapped_request(req, old(self).trace_path(), old(self).base_denom(), sender_id@, receiver_id@, amount, timeout_seconds)
                &&& final(self).pending() == old(self).pending().insert(sender_id@, req)
                &&& final(self).balances() == moved(old(self).balances(), sender_id@, old(self).account(), amount)
            },
    {
        if amount == 0 {
            return Err(WrappedTokenError::AmountMustBeGreaterThanZero);
        }
        if self.ft_balance_of(sender_id.as_str()) < amount {
            return Err(WrappedTokenError::NotEnoughBalance);
        }
        if self.pending_transfer_requests.contains_key(&sender_id) {
            return Err(WrappedTokenError::PendingTransferRequestExists);
        }
        if ledger_total_supply(&self.token) < amount {
            return Err(WrappedTokenError::TotalSupplyOverflow);
        }
        let own = self.ft_balance_of(self.current_account_id.as_str());
        let kept = if same_text(sender_id.as_str(), self.current_account_id.as_str()) { own - amount } else { own };
        if kept > u128::MAX - amount {
            return Err(WrappedTokenError::BalanceOverflow);
        }
        let port_on_a = match text_split_part(self.trace_path.as_str(), '/', 0) {
            Some(p) => p,
            None => String::new(),
        };
        let chan_on_a = match text_split_part(self.trace_path.as_str(), '/', 1) {
            Some(p) => p,
            None => String::new(),
        };
        let transfer_request = Ics20TransferRequest {
            port_on_a,
            chan_on_a,
            token_trace_path: self.trace_path.clone(),
            token_denom: self.base_denom.clone(),
            amount,
            sender: sender_id.clone(),
            receiver: receiver_id,
            timeout_seconds,
        };
        let recorded = transfer_request.copied();
        ledger_withdraw(&mut self.token, sender_id.as_str(), amount);
        ledger_deposit(&mut self.token, self.current_account_id.as_str(), amount);
        self.pending_transfer_requests.insert(sender_id, recorded);
        Ok(transfer_request)
    }

    /// Whether `account_id` has a pending request that matches the given transfer.
    fn check_pending_transfer_request(
        &self,
        trace_path: &String,
        base_denom: &String,
        account_id: &String,
        amount: u128,
    ) -> (r: Result<(), WrappedTokenError>)
        requires
            self.wf(),
        ensures
            !self.pending().contains_key(account_id@) ==> r == Err::<(), WrappedTokenError>(WrappedTokenError::NoPendingTransferRequest),
            self.pending().contains_key(account_id@) && !request_matches(self.pending()[account_id@], trace_path@, base_denom@, amount)
                ==> r == Err::<(), WrappedTokenError>(WrappedTokenError::PendingTransferRequestNotMatched),
            r is Ok <==> self.pending().contains_key(account_id@) && request_matches(self.pending()[account_id@], trace_path@, base_denom@, amount),
    {
        let matched = match self.pending_transfer_requests.get(account_id) {
            Some(req) => req.amount == amount && same_text(req.token_denom.as_str(), base_denom.as_str())
                && same_text(req.token_trace_path.as_str(), trace_path.as_str()),
            None => { return Err(WrappedTokenError::NoPendingTransferRequest); },
        };
        if !matched {
            return Err(WrappedTokenError::PendingTransferRequestNotMatched);
        }
        Ok(())
    }

    /// Removes the pending request of `account_id` when it matches the given transfer.
    pub fn checked_remove_pending_transfer_request(
        &mut self,
        trace_path: &String,
        base_denom: &String,
        account_id: &String,
        amount: u128,
    ) -> (r: Result<(), WrappedTokenError>)
        requires
            old(self).wf(),
        ensures
            final(self).wf(),
            final(self).account() == old(self).account(),
            final(self).account_storage_usage() == old(self).account_storage_usage(),
            final(self).trace_path() == old(self).trace_path(),
            final(self).base_denom() == old(self).base_denom(),
            final(self).ibc_account() == old(self).ibc_account(),
            final(self).metadata() == old(self).metadata(),
            final(self).balances() == old(self).balances(),
            final(self).total_supply() == old(self).total_supply(),
            !old(self).pending().contains_key(account_id@) ==> r == Err::<(), WrappedTokenError>(WrappedTokenError::NoPendingTransferRequest),
            old(self).pending().contains_key(account_id@) && !request_matches(old(self).pending()[account_id@], trace_path@, base_denom@, amount)
                ==> r == Err::<(), WrappedTokenError>(WrappedTokenError::PendingTransferRequestNotMatched),
            r is Ok <==> old(self).pending().contains_key(account_id@) && request_matches(old(self).pending()[account_id@], trace_path@, base_denom@, amount),
            r is Ok ==> final(self).pending() == old(self).pending().remove(account_id@),
            r is Err ==> final(self).pending() == old(self).pending(),
    {
        self.check_pending_transfer_request(trace_path, base_denom, account_id, amount)?;
        self.pending_transfer_requests.remove(account_id);
        Ok(())
    }

    /// The checked form of `apply_transfer_request`: the error with which the contract fails on a call that `apply_transfer_request` does not take, else what `apply_transfer_request` does.
    ///
    /// Settles the pending request of `sender_id` once the IBC implementation has
    /// sent the transfer: the amount locked in the contract's own account is burnt,
    /// so that balance and the total supply drop by it.
    pub fn try_apply_transfer_request(
        &mut self,
        predecessor_account_id: &str,
        trace_path: String,
        base_denom: String,
        sender_id: String,
        amount: u128,
    ) -> (r: Result<(), WrappedTokenError>)
        requires
            old(self).wf(),
        ensures
            final(self).wf(),
            final(self).account() == old(self).account(),
            final(self).account_storage_usage() == old(self).account_storage_usage(),
            final(self).trace_path() == old(self).trace_path(),
            final(self).base_denom() == old(self).base_denom(),
            final(self).ibc_account() == old(self).ibc_account(),
            final(self).metadata() == old(self).metadata(),
            predecessor_account_id@ != old(self).ibc_account() ==> r == Err::<(), WrappedTokenError>(WrappedTokenError::NotNearIbcAccount),
            predecessor_account_id@ == old(self).ibc_account() && !old(self).pending().contains_key(sender_id@)
                ==> r == Err::<(), WrappedTokenError>(WrappedTokenError::NoPendingTransferRequest),
            predecessor_account_id@ == old(self).ibc_account() && old(self).pending().contains_key(sender_id@)
                && !request_matches(old(self).pending()[sender_id@], trace_path@, base_denom@, amount)
                ==> r == Err::<(), WrappedTokenError>(WrappedTokenError::PendingTransferRequestNotMatched),
            predecessor_account_id@ == old(self).ibc_account() && old(self).pending().contains_key(sender_id@)
                && request_matches(old(self).pending()[sender_id@], trace_path@, base_denom@, amount)
                && old(self).balances()[old(self).account()] < amount
                ==> r == Err::<(), WrappedTokenError>(WrappedTokenError::AccountBalanceTooLow),
            predecessor_account_id@ == old(self).ibc_account() && old(self).pending().contains_key(sender_id@)
                && request_matches(old(self).pending()[sender_id@], trace_path@, base_denom@, amount)
                && old(self).balances()[old(self).account()] >= amount && old(self).total_supply() < amount
                ==> r == Err::<(), WrappedTokenError>(WrappedTokenError::TotalSupplyOverflow),
            r is Ok <==> predecessor_account_id@ == old(self).ibc_account() && old(self).pending().contains_key(sender_id@)
                && request_matches(old(self).pending()[sender_id@], trace_path@, base_denom@, amount)
                && old(self).balances()[old(self).account()] >= amount && old(self).total_supply() >= amount,
            r is Ok ==> {
                &&& final(self).pending() == old(self).pending().remove(sender_id@)
                &&& final(self).balances() == old(self).balances().insert(
                    old(self).account(),
                    (old(self).balances()[old(self).account()] - amount) as u128,
                )
                &&& final(self).total_supply() == old(self).total_supply() - amount
            },
            r is Err ==> {
                &&& final(self).pending() == old(self).pending()
                &&& final(self).balances() == old(self).balances()
                &&& final(self).total_supply() == old(self).total_supply()
            },
    {
        self.assert_near_ibc_account(predecessor_account_id)?;
        self.check_pending_transfer_request(&trace_path, &base_denom, &sender_id, amount)?;
        if self.ft_balance_of(self.current_account_id.as_str()) < amount {
            return Err(WrappedTokenError::AccountBalanceTooLow);
        }
        if ledger_total_supply(&self.token) < amount {
            return Err(WrappedTokenError::TotalSupplyOverflow);
        }
        self.pending_transfer_requests.remove(&sender_id);
        ledger_withdraw(&mut self.token, self.current_account_id.as_str(), amount);
        Ok(())
    }

    /// The checked form of `cancel_transfer_request`: the error with which the contract fails on a call that `cancel_transfer_request` does not take, else what `cancel_transfer_request` does.
    ///
    /// Drops the pending request of `sender_id` when the IBC implementation could
    /// not send the transfer: the amount locked in the contract's own account goes
    /// back to the sender, and the total supply stays.
    pub fn try_cancel_transfer_request(
        &mut self,
        predecessor_account_id: &str,
        trace_path: String,
        base_denom: String,
        sender_id: String,
        amount: u128,
    ) -> (r: Result<(), WrappedTokenError>)
        requires
            old(self).wf(),
            valid_account_id(sender_id@),
        ensures
            final(self).wf(),
            final(self).account() == old(self).account(),
            final(self).account_storage_usage() == old(self).account_storage_usage(),
            final(self).trace_path() == old(self).trace_path(),
            final(self).base_denom() == old(self).base_denom(),
            final(self).ibc_account() == old(self).ibc_account(),
            final(self).metadata() == old(self).metadata(),
            final(self).total_supply() == old(self).total_supply(),
            predecessor_account_id@ != old(self).ibc_account() ==> r == Err::<(), WrappedTokenError>(WrappedTokenError::NotNearIbcAccount),
            predecessor_account_id@ == old(self).ibc_account() && !old(self).pending().contains_key(sender_id@)
                ==> r == Err::<(), WrappedTokenError>(WrappedTokenError::NoPendingTransferRequest),
            predecessor_account_id@ == old(self).ibc_account() && old(self).pending().contains_key(sender_id@)
                && !request_matches(old(self).pending()[sender_id@], trace_path@, base_denom@, amount)
                ==> r == Err::<(), WrappedTokenError>(WrappedTokenError::PendingTransferRequestNotMatched),
            predecessor_account_id@ == old(self).ibc_account() && old(self).pending().contains_key(sender_id@)
                && request_matches(old(self).pending()[sender_id@], trace_path@, base_denom@, amount)
                && old(self).balances()[old(self).account()] < amount
                ==> r == Err::<(), WrappedTokenError>(WrappedTokenError::AccountBalanceTooLow),
            predecessor_account_id@ == old(self).ibc_account() && old(self).pending().contains_key(sender_id@)
                && request_matches(old(self).pending()[sender_id@], trace_path@, base_denom@, amount)
                && old(self).balances()[old(self).account()] >= amount && old(self).total_supply() < amount
                ==> r == Err::<(), WrappedTokenError>(WrappedTokenError::TotalSupplyOverflow),
            predecessor_account_id@ == old(self).ibc_account() && old(self).pending().contains_key(sender_id@)
                && request_matches(old(self).pending()[sender_id@], trace_path@, base_denom@, amount)
                && old(self).balances()[old(self).account()] >= amount && old(self).total_supply() >= amount
                && !old(self).balances().contains_key(sender_id@)
                ==> r == Err::<(), WrappedTokenError>(WrappedTokenError::AccountNotRegistered),
            predecessor_account_id@ == old(self).ibc_account() && old(self).pending().contains_key(sender_id@)
                && request_matches(old(self).pending()[sender_id@], trace_path@, base_denom@, amount)
                && old(self).balances()[old(self).account()] >= amount && old(self).total_supply() >= amount
                && old(self).balances().contains_key(sender_id@) && !old(self).move_fits(old(self).account(), sender_id@, amount)
                ==> r == Err::<(), WrappedTokenError>(WrappedTokenError::BalanceOverflow),
            r is Ok <==> predecessor_account_id@ == old(self).ibc_account() && old(self).pending().contains_key(sender_id@)
                && request_matches(old(self).pending()[sender_id@], trace_path@, base_denom@, amount)
                && old(self).balances()[old(self).account()] >= amount && old(self).total_supply() >= amount
                && old(self).balances().contains_key(sender_id@) && old(self).move_fits(old(self).account(), sender_id@, amount),
            r is Ok ==> {
                &&& final(self).pending() == old(self).pending().remove(sender_id@)
                &&& final(self).balances() == moved(old(self).balances(), old(self).account(), sender_id@, amount)
            },
            r is Err ==> final(self).pending() == old(self).pending() && final(self).balances() == old(self).balances(),
    {
        self.assert_near_ibc_account(predecessor_account_id)?;
        self.check_pending_transfer_request(&trace_path, &base_denom, &sender_id, amount)?;
        let own = self.ft_balance_of(self.current_account_id.as_str());
        if own < amount {
            return Err(WrappedTokenError::AccountBalanceTooLow);
        }
        if ledger_total_supply(&self.token) < amount {
            return Err(WrappedTokenError::TotalSupplyOverflow);
        }
        let sender_balance = match ledger_balance(&self.token, sender_id.as_str()) {
            Some(b) => b,
            None => { return Err(WrappedTokenError::AccountNotRegistered); },
        };
        let kept = if same_text(sender_id.as_str(), self.current_account_id.as_str()) { sender_balance - amount } else { sender_balance };
        if kept > u128::MAX - amount {
            return Err(WrappedTokenError::BalanceOverflow);
        }
        self.pending_transfer_requests.remove(&sender_id);
        ledger_withdraw(&mut self.token, self.current_account_id.as_str(), amount);
        ledger_deposit(&mut self.token, sender_id.as_str(), amount);
        Ok(())
    }

    /// A holder sends `amount` of the token back to the chain it came from, for a
    /// request that `try_request_transfer` accepts (the contract fails on any
    /// other): the request that goes to the IBC implementation is recorded as
    /// pending, and the amount moves from the holder to the contract's own
    /// account, where it stays locked; the total supply stays.
    pub fn request_transfer(
        &mut self,
        sender_id: String,
        receiver_id: String,
        amount: u128,
        timeout_seconds: Option<u64>,
    ) -> (r: Ics20TransferRequest)
        requires
            old(self).wf(),
            valid_account_id(sender_id@),
            amount > 0,
            old(self).balance_of(sender_id@) >= amount,
            !old(self).pending().contains_key(sender_id@),
            old(self).total_supply() >= amount,
            old(self).move_fits(sender_id@, old(self).account(), amount),
        ensures
            final(self).wf(),
            final(self).account() == old(self).account(),
            final(self).account_storage_usage() == old(self).account_storage_usage(),
            final(self).trace_path() == old(self).trace_path(),
            final(self).base_denom() == old(self).base_denom(),
            final(self).ibc_account() == old(self).ibc_account(),
            final(self).metadata() == old(self).metadata(),
            final(self).total_supply() == old(self).total_supply(),
            wrapped_request(r, old(self).trace_path(), old(self).base_denom(), sender_id@, receiver_id@, amount, timeout_seconds),
            final(self).pending() == old(self).pending().insert(sender_id@, r),
            final(self).balances() == moved(old(self).balances(), sender_id@, old(self).account(), amount),
    {
        self.try_request_transfer(sender_id, receiver_id, amount, timeout_seconds).unwrap()
    }

    /// Settles the pending request of `sender_id` once the IBC implementation has
    /// sent the transfer, for a call that `try_apply_transfer_request` accepts
    /// (the contract fails on any other): the amount locked in the contract's own
    /// account is burnt, so that balance and the total supply drop by it.
    pub fn apply_transfer_request(
        &mut self,
        predecessor_account_id: &str,
        trace_path: String,
        base_denom: String,
        sender_id: String,
        amount: u128,
    )
        requires
            old(self).wf(),
            predecessor_account_id@ == old(self).ibc_account(),
            old(self).pending().contains_key(sender_id@),
            request_matches(old(self).pending()[sender_id@], trace_path@, base_denom@, amount),
            old(self).balances()[old(self).account()] >= amount,
            old(self).total_supply() >= amount,
        ensures
            final(self).wf(),
            final(self).account() == old(self).account(),
            final(self).account_storage_usage() == old(self).account_storage_usage(),
            final(self).trace_path() == old(self).trace_path(),
            final(self).base_denom() == old(self).base_denom(),
            final(self).ibc_account() == old(self).ibc_account(),
            final(self).metadata() == old(self).metadata(),
            final(self).pending() == old(self).pending().remove(sender_id@),
            final(self).balances() == old(self).balances().insert(
                old(self).account(),
                (old(self).balances()[old(self).account()] - amount) as u128,
            ),
            final(self).total_supply() == old(self).total_supply() - amount,
    {
        self.try_apply_transfer_request(predecessor_account_id, trace_path, base_denom, sender_id, amount).unwrap()
    }

    /// Drops the pending request of `sender_id` when the IBC implementation could
    /// not send the transfer, for a call that `try_cancel_transfer_request`
    /// accepts (the contract fails on any other): the amount locked in the
    /// contract's own account goes back to the sender; the total supply stays.
    pub fn cancel_transfer_request(
        &mut self,
        predecessor_account_id: &str,
        trace_path: String,
        base_denom: String,
        sender_id: String,
        amount: u128,
    )
        requires
            old(self).wf(),
            valid_account_id(sender_id@),
            predecessor_account_id@ == old(self).ibc_account(),
            old(self).pending().contains_key(sender_id@),
            request_matches(old(self).pending()[sender_id@], trace_path@, base_denom@, amount),
            old(self).balances()[old(self).account()] >= amount,
            old(self).total_supply() >= amount,
            old(self).balances().contains_key(sender_id@),
            old(self).move_fits(old(self).account(), sender_id@, amount),
        ensures
            final(self).wf(),
            final(self).account() == old(self).account(),
            final(self).account_storage_usage() == old(self).account_storage_usage(),
            final(self).trace_path() == old(self).trace_path(),
            final(self).base_denom() == old(self).base_denom(),
            final(self).ibc_account() == old(self).ibc_account(),
            final(self).metadata() == old(self).metadata(),
            final(self).total_supply() == old(self).total_supply(),
            final(self).pending() == old(self).pending().remove(sender_id@),
            final(self).balances() == moved(old(self).balances(), old(self).account(), sender_id@, amount),
    {
        self.try_cancel_transfer_request(predecessor_account_id, trace_path, base_denom, sender_id, amount).unwrap()
    }

    /// Mints `amount` to `account_id`, for a call that `try_mint` accepts (the
    /// contract fails on any other): the parent account calls, an account not
    /// registered yet is registered and paid for from the deposit, and the
    /// account's balance and the total supply rise by the amount. Returns what
    /// `storage_deposit` refunds of the deposit.
    pub fn mint(
        &mut self,
        predecessor_account_id: &str,
        account_id: String,
        amount: u128,
        attached_deposit: u128,
        storage_byte_cost: u128,
    ) -> (r: u128)
        requires
            old(self).wf(),
            valid_account_id(account_id@),
            predecessor_account_id@ == parent_account_of(old(self).account()),
            old(self).balances().contains_key(account_id@) || attached_deposit >= old(self).min_storage_balance(storage_byte_cost),
            old(self).balance_of(account_id@) + amount <= u128::MAX,
            old(self).total_supply() + amount <= u128::MAX,
        ensures
            final(self).wf(),
            final(self).account() == old(self).account(),
            final(self).account_storage_usage() == old(self).account_storage_usage(),
            final(self).trace_path() == old(self).trace_path(),
            final(self).base_denom() == old(self).base_denom(),
            final(self).ibc_account() == old(self).ibc_account(),
            final(self).metadata() == old(self).metadata(),
            final(self).pending() == old(self).pending(),
            r == (if old(self).balances().contains_key(account_id@) {
                attached_deposit
            } else {
                (attached_deposit - old(self).min_storage_balance(storage_byte_cost)) as u128
            }),
            final(self).balances() == old(self).balances().insert(account_id@, (old(self).balance_of(account_id@) + amount) as u128),
            final(self).total_supply() == old(self).total_supply() + amount,
    {
        self.try_mint(predecessor_account_id, account_id, amount, attached_deposit, storage_byte_cost).unwrap()
    }

    /// Sets the icon of the token, for a call that `try_set_icon` accepts (the
    /// contract fails on any other): the parent account calls, with a deposit
    /// that covers the storage of the icon's bytes.
    pub fn set_icon(
        &mut self,
        predecessor_account_id: &str,
        attached_deposit: u128,
        storage_byte_cost: u128,
        icon: String,
    )
        requires
            old(self).wf(),
            storage_byte_cost * byte_len(icon@) <= u128::MAX,
            byte_len(icon@) <= usize::MAX,
            predecessor_account_id@ == parent_account_of(old(self).account()),
            attached_deposit >= storage_byte_cost * byte_len(icon@),
        ensures
            final(self).wf(),
            final(self).account() == old(self).account(),
            final(self).account_storage_usage() == old(self).account_storage_usage(),
            final(self).trace_path() == old(self).trace_path(),
            final(self).base_denom() == old(self).base_denom(),
            final(self).ibc_account() == old(self).ibc_account(),
            final(self).pending() == old(self).pending(),
            final(self).balances() == old(self).balances(),
            final(self).total_supply() == old(self).total_supply(),
            final(self).metadata().icon.is_some(),
            final(self).metadata().icon.unwrap()@ == icon@,
            same_metadata(final(self).metadata(), TokenMetadata { icon: final(self).metadata().icon, ..old(self).metadata() }),
    {
        self.try_set_icon(predecessor_account_id, attached_deposit, storage_byte_cost, icon).unwrap()
    }

    /// The holders that have a pending transfer request.
    pub fn get_pending_accounts(&self) -> (r: Vec<String>)
        requires
            self.wf(),
        ensures
            r.len() == self.pending_accounts().len(),
            forall|i: int| 0 <= i < r.len() ==> (#[trigger] r[i])@ == self.pending_accounts()[i],
            forall|k: Seq<char>| #[trigger] self.pending().contains_key(k) <==> self.pending_accounts().contains(k),
            self.pending_accounts().no_duplicates(),
    {
        proof {
            self.pending_transfer_requests.lemma_keys();
        }
        let n = self.pending_transfer_requests.len();
        let mut r: Vec<String> = Vec::new();
        let mut i: usize = 0;
        while i < n
            invariant
                self.wf(),
                n == self.pending_accounts().len(),
                i <= n,
                r.len() == i,
                forall|j: int| 0 <= j < i ==> (#[trigger] r[j])@ == self.pending_accounts()[j],
            decreases n - i,
        {
            r.push(self.pending_transfer_requests.key_at(i));
            i = i + 1;
        }
        r
    }

    /// The pending transfer request of `account_id`, if there is one.
    pub fn get_pending_transfer_request_of(&self, account_id: &String) -> (r: Option<Ics20TransferRequest>)
        requires
            self.wf(),
        ensures
            r.is_some() <==> self.pending().contains_key(account_id@),
            r matches Some(req) ==> req == self.pending()[account_id@],
    {
        match self.pending_transfer_requests.get(account_id) {
            Some(req) => Some(req.copied()),
            None => None,
        }
    }

    /// The predecessor must be the parent account, the token factory.
    fn assert_parent(&self, predecessor_account_id: &str) -> (r: Result<(), WrappedTokenError>)
        requires
            self.wf(),
        ensures
            r is Ok <==> predecessor_account_id@ == parent_account_of(self.account()),
            r is Err ==> r == Err::<(), WrappedTokenError>(WrappedTokenError::NotParentAccount),
    {
        match assert_parent_account(self.current_account_id.as_str(), predecessor_account_id) {
            Ok(()) => Ok(()),
            Err(_) => Err(WrappedTokenError::NotParentAccount),
        }
    }

    /// The checked form of `mint`: the error with which the contract fails on a call that `mint` does not take, else what `mint` does.
    ///
    /// Mints `amount` to `account_id`; minting is for the parent account, the
    /// token factory, alone. As `storage_deposit` of the ledger does, an account
    /// that is not registered yet is registered, which the attached deposit must
    /// pay at the ledger's price for an account's storage; the result is what
    /// `storage_deposit` refunds of the deposit (all of it for a registered
    /// account). The account's balance and the total supply rise by the amount.
    pub fn try_mint(
        &mut self,
        predecessor_account_id: &str,
        account_id: String,
        amount: u128,
        attached_deposit: u128,
        storage_byte_cost: u128,
    ) -> (r: Result<u128, WrappedTokenError>)
        requires
            old(self).wf(),
            valid_account_id(account_id@),
        ensures
            final(self).wf(),
            final(self).account() == old(self).account(),
            final(self).account_storage_usage() == old(self).account_storage_usage(),
            final(self).trace_path() == old(self).trace_path(),
            final(self).base_denom() == old(self).base_denom(),
            final(self).ibc_account() == old(self).ibc_account(),
            final(self).metadata() == old(self).metadata(),
            final(self).pending() == old(self).pending(),
            predecessor_account_id@ != parent_account_of(old(self).account())
                ==> r == Err::<u128, WrappedTokenError>(WrappedTokenError::NotParentAccount),
            predecessor_account_id@ == parent_account_of(old(self).account())
                && !old(self).balances().contains_key(account_id@)
                && attached_deposit < old(self).min_storage_balance(storage_byte_cost)
                ==> r == Err::<u128, WrappedTokenError>(WrappedTokenError::NotEnoughStorageDeposit),
            predecessor_account_id@ == parent_account_of(old(self).account())
                && (old(self).balances().contains_key(account_id@) || attached_deposit >= old(self).min_storage_balance(storage_byte_cost))
                && old(self).balance_of(account_id@) + amount > u128::MAX
                ==> r == Err::<u128, WrappedTokenError>(WrappedTokenError::BalanceOverflow),
            predecessor_account_id@ == parent_account_of(old(self).account())
                && (old(self).balances().contains_key(account_id@) || attached_deposit >= old(self).min_storage_balance(storage_byte_cost))
                && old(self).balance_of(account_id@) + amount <= u128::MAX
                && old(self).total_supply() + amount > u128::MAX
                ==> r == Err::<u128, WrappedTokenError>(WrappedTokenError::TotalSupplyOverflow),
            r is Ok <==> predecessor_account_id@ == parent_account_of(old(self).account())
                && (old(self).balances().contains_key(account_id@) || attached_deposit >= old(self).min_storage_balance(storage_byte_cost))
                && old(self).balance_of(account_id@) + amount <= u128::MAX
                && old(self).total_supply() + amount <= u128::MAX,
            r matches Ok(refund) ==> {
                &&& refund == (if old(self).balances().contains_key(account_id@) {
                        attached_deposit
                    } else {
                        (attached_deposit - old(self).min_storage_balance(storage_byte_cost)) as u128
                    })
                &&& final(self).balances() == old(self).balances().insert(account_id@, (old(self).balance_of(account_id@) + amount) as u128)
                &&& final(self).total_supply() == old(self).total_supply() + amount
            },
            r is Err ==> final(self).balances() == old(self).balances() && final(self).total_supply() == old(self).total_supply(),
    {
        self.assert_parent(predecessor_account_id)?;
        let existing = ledger_balance(&self.token, account_id.as_str());
        let min_balance: u128 = match storage_byte_cost.checked_mul(self.account_storage_usage as u128) {
            Some(m) => m,
            None => u128::MAX,
        };
        if existing.is_none() && attached_deposit < min_balance {
            return Err(WrappedTokenError::NotEnoughStorageDeposit);
        }
        let balance: u128 = match existing {
            Some(b) => b,
            None => 0,
        };
        if balance > u128::MAX - amount {
            return Err(WrappedTokenError::BalanceOverflow);
        }
        if ledger_total_supply(&self.token) > u128::MAX - amount {
            return Err(WrappedTokenError::TotalSupplyOverflow);
        }
        let refund = if existing.is_none() {
            ledger_register(&mut self.token, account_id.as_str());
            attached_deposit - min_balance
        } else {
            attached_deposit
        };
        ledger_deposit(&mut self.token, account_id.as_str(), amount);
        Ok(refund)
    }

    /// The checked form of `set_icon`: the error with which the contract fails on a call that `set_icon` does not take, else what `set_icon` does.
    ///
    /// Sets the icon of the token; called by the parent account, with a deposit
    /// that covers the storage of the icon's bytes.
    pub fn try_set_icon(
        &mut self,
        predecessor_account_id: &str,
        attached_deposit: u128,
        storage_byte_cost: u128,
        icon: String,
    ) -> (r: Result<(), WrappedTokenError>)
        requires
            old(self).wf(),
            storage_byte_cost * byte_len(icon@) <= u128::MAX,
            byte_len(icon@) <= usize::MAX,
        ensures
            final(self).wf(),
            final(self).account() == old(self).account(),
            final(self).account_storage_usage() == old(self).account_storage_usage(),
            final(self).trace_path() == old(self).trace_path(),
            final(self).base_denom() == old(self).base_denom(),
            final(self).ibc_account() == old(self).ibc_account(),
            final(self).pending() == old(self).pending(),
            final(self).balances() == old(self).balances(),
            final(self).total_supply() == old(self).total_supply(),
            predecessor_account_id@ != parent_account_of(old(self).account())
                ==> r == Err::<(), WrappedTokenError>(WrappedTokenError::NotParentAccount),
            predecessor_account_id@ == parent_account_of(old(self).account())
                && attached_deposit < storage_byte_cost * byte_len(icon@)
                ==> r == Err::<(), WrappedTokenError>(WrappedTokenError::NotEnoughDeposit),
            r is Ok <==> predecessor_account_id@ == parent_account_of(old(self).account())
                && attached_deposit >= storage_byte_cost * byte_len(icon@),
            r is Err ==> final(self).metadata() == old(self).metadata(),
            r is Ok ==> {
                &&& final(self).metadata().icon.is_some()
                &&& final(self).metadata().icon.unwrap()@ == icon@
                &&& same_metadata(final(self).metadata(), TokenMetadata { icon: final(self).metadata().icon, ..old(self).metadata() })
            },
    {
        self.assert_parent(predecessor_account_id)?;
        let icon_text = icon.as_str();
        let icon_len = icon_text.len();
        proof {
            assert(icon_text.spec_bytes() == vstd::utf8::encode_utf8(icon@));
            assert(icon_len == byte_len(icon@));
        }
        let icon_bytes: u128 = icon_len as u128;
        assert(storage_byte_cost * icon_bytes <= u128::MAX);
        let needed: u128 = storage_byte_cost * icon_bytes;
        if attached_deposit < needed {
            return Err(WrappedTokenError::NotEnoughDeposit);
        }
        self.metadata.icon = Some(icon);
        Ok(())
    }
}

/// The number of bytes of the UTF-8 encoding of a text.
pub open spec fn byte_len(s: Seq<char>) -> nat {
    vstd::utf8::encode_utf8(s).len()
}

/// `suffix` ends `s`.
pub open spec fn is_suffix(suffix: Seq<char>, s: Seq<char>) -> bool {
    suffix.len() <= s.len() && s.subrange(s.len() - suffix.len(), s.len() as int) == suffix
}

/// A transfer request that `request_transfer` recorded can always be settled by
/// the token's own denomination, the holder and the amount: the request matches,
/// the contract's own account holds the locked amount, the total supply covers
/// it, the holder is registered and can take the amount back. So both
/// `apply_transfer_request` and `cancel_transfer_request` succeed when the IBC
/// implementation calls them, and removing the request brings the pending
/// requests back to what they were before.
pub proof fn law_recorded_request_settles(
    c0: Contract,
    c1: Contract,
    req: Ics20TransferRequest,
    sender: Seq<char>,
    receiver: Seq<char>,
    amount: u128,
    timeout_seconds: Option<u64>,
)
    requires
        c0.wf(),
        amount > 0,
        c0.balance_of(sender) >= amount,
        !c0.pending().contains_key(sender),
        c0.total_supply() >= amount,
        c0.move_fits(sender, c0.account(), amount),
        wrapped_request(req, c0.trace_path(), c0.base_denom(), sender, receiver, amount, timeout_seconds),
        c1.account() == c0.account(),
        c1.pending() == c0.pending().insert(sender, req),
        c1.balances() == moved(c0.balances(), sender, c0.account(), amount),
        c1.total_supply() == c0.total_supply(),
    ensures
        c1.pending().contains_key(sender),
        request_matches(c1.pending()[sender], c0.trace_path(), c0.base_denom(), amount),
        c1.pending().remove(sender) == c0.pending(),
        c1.balances()[c1.account()] >= amount,
        c1.total_supply() >= amount,
        c1.balances().contains_key(sender),
        c1.move_fits(c1.account(), sender, amount),
{
    assert(c1.pending().remove(sender) =~= c0.pending());
}

/// Cancelling a request undoes it: after `request_transfer` and then
/// `cancel_transfer_request` of the same holder and amount, the balances, the
/// total supply and the pending requests are what they were before the request.
pub proof fn law_request_then_cancel_restores(
    c0: Contract,
    c1: Contract,
    c2: Contract,
    req: Ics20TransferRequest,
    sender: Seq<char>,
    amount: u128,
)
    requires
        c0.wf(),
        amount > 0,
        c0.balance_of(sender) >= amount,
        !c0.pending().contains_key(sender),
        c0.move_fits(sender, c0.account(), amount),
        c1.account() == c0.account(),
        c1.pending() == c0.pending().insert(sender, req),
        c1.balances() == moved(c0.balances(), sender, c0.account(), amount),
        c1.total_supply() == c0.total_supply(),
        c2.pending() == c1.pending().remove(sender),
        c2.balances() == moved(c1.balances(), c1.account(), sender, amount),
        c2.total_supply() == c1.total_supply(),
    ensures
        c2.balances() == c0.balances(),
        c2.total_supply() == c0.total_supply(),
        c2.pending() == c0.pending(),
{
    assert(c2.pending() =~= c0.pending());
    assert(c2.balances() =~= c0.balances());
}

/// Applying a request burns what it locked: after `request_transfer` and then
/// `apply_transfer_request` of the same holder and amount, the holder's balance
/// is lower by the amount, every other balance (the contract's own among them)
/// is what it was, and the total supply is lower by the amount.
pub proof fn law_request_then_apply_burns(
    c0: Contract,
    c1: Contract,
    c2: Contract,
    req: Ics20TransferRequest,
    sender: Seq<char>,
    amount: u128,
)
    requires
        c0.wf(),
        amount > 0,
        c0.balance_of(sender) >= amount,
        !c0.pending().contains_key(sender),
        c0.total_supply() >= amount,
        c0.move_fits(sender, c0.account(), amount),
        c1.account() == c0.account(),
        c1.pending() == c0.pending().insert(sender, req),
        c1.balances() == moved(c0.balances(), sender, c0.account(), amount),
        c1.total_supply() == c0.total_supply(),
        c2.pending() == c1.pending().remove(sender),
        c2.balances() == c1.balances().insert(c1.account(), (c1.balances()[c1.account()] - amount) as u128),
        c2.total_supply() == c1.total_supply() - amount,
    ensures
        c2.balances() == c0.balances().insert(sender, (c0.balances()[sender] - amount) as u128),
        c2.total_supply() == c0.total_supply() - amount,
        c2.pending() == c0.pending(),
{
    assert(c2.pending() =~= c0.pending());
    assert(c2.balances() =~= c0.balances().insert(sender, (c0.balances()[sender] - amount) as u128));
}

/// The request of a holder goes out on the channel of the token's first trace
/// prefix: its port and channel are the first two parts of the trace path, which
/// a well-formed token has.
pub proof fn law_request_uses_first_trace_prefix(c: Contract, req: Ics20TransferRequest, sender: Seq<char>, receiver: Seq<char>, amount: u128, timeout_seconds: Option<u64>)
    requires
        c.wf(),
        wrapped_request(req, c.trace_path(), c.base_denom(), sender, receiver, amount, timeout_seconds),
    ensures
        c.trace_path() == req.port_on_a@ + seq!['/'] + c.trace_path().subrange(req.port_on_a@.len() as int + 1, c.trace_path().len() as int),
{
    let t = c.trace_path();
    let i = crate::text::nth_char_pos(t, '/', 0);
    assert(char_count(t, '/') >= 1);
    assert(exists|j: int| crate::text::is_nth_char(t, '/', 0, j)) by {
        lemma_first_char_exists(t, '/');
    }
    assert(crate::text::is_nth_char(t, '/', 0, i));
    assert(req.port_on_a@ == t.subrange(0, i));
    assert(t =~= t.subrange(0, i) + seq!['/'] + t.subrange(i + 1, t.len() as int));
}

/// A text with a `c` has a first one.
proof fn lemma_first_char_exists(s: Seq<char>, c: char)
    requires
        char_count(s, c) >= 1,
    ensures
        exists|j: int| crate::text::is_nth_char(s, c, 0, j),
    decreases s.len(),
{
    let init = s.drop_last();
    if char_count(init, c) >= 1 {
        lemma_first_char_exists(init, c);
        let j = choose|j: int| crate::text::is_nth_char(init, c, 0, j);
        assert(s.subrange(0, j) =~= init.subrange(0, j));
        assert(crate::text::is_nth_char(s, c, 0, j));
    } else {
        assert(s.last() == c);
        assert(s.subrange(0, s.len() - 1) =~= init);
        assert(crate::text::is_nth_char(s, c, 0, s.len() - 1));
    }
}

} // verus!
