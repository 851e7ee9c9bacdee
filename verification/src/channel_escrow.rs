use vstd::prelude::*;
use vstd::string::*;
use crate::accounts::is_sub_account_of;
use crate::outside::transfer_port_id;
use crate::text::{before_nth_char, char_count, count_char, same_text, text_before_nth};
use crate::types::{AssetDenom, Ics20TransferRequest, StorageMigration};
use crate::view_map::{KeyView, ViewMap};

verus! {

/// Why the channel escrow refuses a call.
#[derive(Clone, Copy, Debug, PartialEq, Eq, Structural)]
pub enum ChannelEscrowError {
    ContractMustBeDeployedInSubAccount,
    UnregisteredTokenContract,
    PendingTransferRequestExists,
    InvalidMsg,
    NoPendingTransferRequest,
    PendingTransferRequestNotMatched,
    NotNearIbcAccount,
    TokenContractAlreadyRegistered,
    InvalidTokenDenom,
    RequiresOneYocto,
}

impl ChannelEscrowError {
    /// The message that the contract fails with.
    pub fn message(&self) -> (r: &'static str)
        ensures
            r@ == self.message_text(),
    {
        match self {
            ChannelEscrowError::ContractMustBeDeployedInSubAccount => "ERR_CONTRACT_MUST_BE_DEPLOYED_IN_SUB_ACCOUNT",
            ChannelEscrowError::UnregisteredTokenContract => "ERR_UNREGISTERED_TOKEN_CONTRACT",
            ChannelEscrowError::PendingTransferRequestExists => "ERR_PENDING_TRANSFER_REQUEST_EXISTS",
            ChannelEscrowError::InvalidMsg => "Invalid msg attached in `ft_transfer_call`. Refund deposit.",
            ChannelEscrowError::NoPendingTransferRequest => "ERR_NO_PENDING_TRANSFER_REQUEST",
            ChannelEscrowError::PendingTransferRequestNotMatched => "ERR_PENDING_TRANSFER_REQUEST_NOT_MATCHED",
            ChannelEscrowError::NotNearIbcAccount => "ERR_ONLY_NEAR_IBC_ACCOUNT_CAN_CALL_THIS_METHOD",
            ChannelEscrowError::TokenContractAlreadyRegistered => "ERR_TOKEN_CONTRACT_ALREADY_REGISTERED",
            ChannelEscrowError::InvalidTokenDenom => "ERR_INVALID_TOKEN_DENOM",
            ChannelEscrowError::RequiresOneYocto => "Requires attached deposit of exactly 1 yoctoNEAR",
        }
    }

    /// The message of the error, as text.
    pub open spec fn message_text(&self) -> Seq<char> {
        match self {
            ChannelEscrowError::ContractMustBeDeployedInSubAccount => "ERR_CONTRACT_MUST_BE_DEPLOYED_IN_SUB_ACCOUNT"@,
            ChannelEscrowError::UnregisteredTokenContract => "ERR_UNREGISTERED_TOKEN_CONTRACT"@,
            ChannelEscrowError::PendingTransferRequestExists => "ERR_PENDING_TRANSFER_REQUEST_EXISTS"@,
            ChannelEscrowError::InvalidMsg => "Invalid msg attached in `ft_transfer_call`. Refund deposit."@,
            ChannelEscrowError::NoPendingTransferRequest => "ERR_NO_PENDING_TRANSFER_REQUEST"@,
            ChannelEscrowError::PendingTransferRequestNotMatched => "ERR_PENDING_TRANSFER_REQUEST_NOT_MATCHED"@,
            ChannelEscrowError::NotNearIbcAccount => "ERR_ONLY_NEAR_IBC_ACCOUNT_CAN_CALL_THIS_METHOD"@,
            ChannelEscrowError::TokenContractAlreadyRegistered => "ERR_TOKEN_CONTRACT_ALREADY_REGISTERED"@,
            ChannelEscrowError::InvalidTokenDenom => "ERR_INVALID_TOKEN_DENOM"@,
            ChannelEscrowError::RequiresOneYocto => "Requires attached deposit of exactly 1 yoctoNEAR"@,
        }
    }
}

/// The `msg` that a token holder attaches to `ft_transfer_call`.
pub struct FtOnTransferMsg {
    pub receiver: String,
    pub timeout_seconds: Option<u64>,
}

/// A token contract registered in the escrow, with its denomination.
pub struct RegisteredAsset {
    pub token_contract: String,
    pub asset_denom: AssetDenom,
}

/// The request that `ft_on_transfer` records for `sender` on the channel of the escrow.
pub open spec fn expected_request(
    req: Ics20TransferRequest,
    channel: Seq<char>,
    denom: AssetDenom,
    sender: Seq<char>,
    amount: u128,
    msg: FtOnTransferMsg,
) -> bool {
    &&& req.port_on_a@ == "transfer"@
    &&& req.chan_on_a@ == channel
    &&& req.token_trace_path@ == denom.trace_path@
    &&& req.token_denom@ == denom.base_denom@
    &&& req.amount == amount
    &&& req.sender@ == sender
    &&& req.receiver@ == msg.receiver@
    &&& req.timeout_seconds == msg.timeout_seconds
}

/// The request matches a transfer of `amount` of the given denomination.
pub open spec fn request_matches(req: Ics20TransferRequest, trace_path: Seq<char>, base_denom: Seq<char>, amount: u128) -> bool {
    req.amount == amount && req.token_denom@ == base_denom && req.token_trace_path@ == trace_path
}

/// The escrow contract of one channel: it holds the NEP-141 tokens that are sent
/// to other chains over the channel, and keeps the transfer requests that wait
/// for the IBC implementation.
pub struct Contract {
    near_ibc_account: String,
    token_contracts: ViewMap<String, AssetDenom>,
    pending_transfer_requests: ViewMap<String, Ics20TransferRequest>,
    denom_to_token_contract_map: ViewMap<AssetDenom, String>,
}

impl Contract {
    pub closed spec fn wf(&self) -> bool {
        &&& self.token_contracts.wf()
        &&& self.pending_transfer_requests.wf()
        &&& self.denom_to_token_contract_map.wf()
    }

    /// The account of the IBC implementation.
    pub closed spec fn ibc_account(&self) -> Seq<char> {
        self.near_ibc_account@
    }

    /// The denomination of each registered token contract.
    pub closed spec fn token_contracts(&self) -> Map<Seq<char>, AssetDenom> {
        self.token_contracts@
    }

    /// The pending transfer request of each account.
    pub closed spec fn pending(&self) -> Map<Seq<char>, Ics20TransferRequest> {
        self.pending_transfer_requests@
    }

    /// The token contract of each registered denomination.
    pub closed spec fn denoms(&self) -> Map<(Seq<char>, Seq<char>), String> {
        self.denom_to_token_contract_map@
    }

    /// The accounts with a pending request, in the order in which their requests came.
    pub closed spec fn pending_accounts(&self) -> Seq<Seq<char>> {
        self.pending_transfer_requests.key_views()
    }

    /// The registered token contracts, in the order in which they were registered.
    pub closed spec fn registered_contracts(&self) -> Seq<Seq<char>> {
        self.token_contracts.key_views()
    }

    /// A new escrow, deployed at an account with at least three parts (the
    /// contract fails to initialise anywhere else).
    pub fn new(current_account_id: &str, near_ibc_account: String) -> (c: Contract)
        requires
            char_count(current_account_id@, '.') >= 2,
        ensures
            c.wf(),
            c.ibc_account() == near_ibc_account@,
            c.token_contracts() == Map::<Seq<char>, AssetDenom>::empty(),
            c.pending() == Map::<Seq<char>, Ics20TransferRequest>::empty(),
            c.denoms() == Map::<(Seq<char>, Seq<char>), String>::empty(),
    {
        Self::try_new(current_account_id, near_ibc_account).unwrap()
    }

    /// The checked form of `new`: the error with which the contract fails to initialise where `new` does not apply, else what `new` gives.
    ///
    /// A new escrow; the current account must have at least three parts.
    pub fn try_new(current_account_id: &str, near_ibc_account: String) -> (r: Result<Contract, ChannelEscrowError>)
        ensures
            r is Ok <==> char_count(current_account_id@, '.') >= 2,
            r matches Ok(c) ==> {
                &&& c.wf()
                &&& c.ibc_account() == near_ibc_account@
                &&& c.token_contracts() == Map::<Seq<char>, AssetDenom>::empty()
                &&& c.pending() == Map::<Seq<char>, Ics20TransferRequest>::empty()
                &&& c.denoms() == Map::<(Seq<char>, Seq<char>), String>::empty()
            },
            r matches Err(e) ==> e == ChannelEscrowError::ContractMustBeDeployedInSubAccount,
    {
        if count_char(current_account_id, '.') < 2 {
            return Err(ChannelEscrowError::ContractMustBeDeployedInSubAccount);
        }
        Ok(Contract {
            near_ibc_account,
            token_contracts: ViewMap::new(),
            pending_transfer_requests: ViewMap::new(),
            denom_to_token_contract_map: ViewMap::new(),
        })
    }

    /// The predecessor must be the account of the IBC implementation.
    pub fn assert_near_ibc_account(&self, predecessor_account_id: &str) -> (r: Result<(), ChannelEscrowError>)
        ensures
            r is Ok <==> predecessor_account_id@ == self.ibc_account(),
            r matches Err(e) ==> e == ChannelEscrowError::NotNearIbcAccount,
    {
        if same_text(self.near_ibc_account.as_str(), predecessor_account_id) {
            Ok(())
        } else {
            Err(ChannelEscrowError::NotNearIbcAccount)
        }
    }

    /// The account of the IBC implementation.
    pub fn near_ibc_account(&self) -> (r: String)
        ensures
            r@ == self.ibc_account(),
    {
        self.near_ibc_account.clone()
    }

    /// The checked form of `ft_on_transfer`: the error with which the contract fails on a call that `ft_on_transfer` does not take, else what `ft_on_transfer` does.
    ///
    /// Accepts tokens that `sender_id` sent with `ft_transfer_call` from the token
    /// contract `token_contract`, and records the transfer request that goes to
    /// the IBC implementation. `msg` is `None` when the attached message did not parse.
    pub fn try_ft_on_transfer(
        &mut self,
        token_contract: &str,
        current_account_id: &str,
        sender_id: String,
        amount: u128,
        msg: Option<FtOnTransferMsg>,
    ) -> (r: Result<Ics20TransferRequest, ChannelEscrowError>)
        requires
            old(self).wf(),
            char_count(current_account_id@, '.') >= 1,
        ensures
            final(self).wf(),
            final(self).ibc_account() == old(self).ibc_account(),
            final(self).token_contracts() == old(self).token_contracts(),
            final(self).denoms() == old(self).denoms(),
            !old(self).token_contracts().contains_key(token_contract@) ==> r == Err::<Ics20TransferRequest, ChannelEscrowError>(ChannelEscrowError::UnregisteredTokenContract),
            old(self).token_contracts().contains_key(token_contract@) && old(self).pending().contains_key(sender_id@)
                ==> r == Err::<Ics20TransferRequest, ChannelEscrowError>(ChannelEscrowError::PendingTransferRequestExists),
            old(self).token_contracts().contains_key(token_contract@) && !old(self).pending().contains_key(sender_id@) && msg is None
                ==> r == Err::<Ics20TransferRequest, ChannelEscrowError>(ChannelEscrowError::InvalidMsg),
            r is Err ==> final(self).pending() == old(self).pending(),
            r is Ok <==> old(self).token_contracts().contains_key(token_contract@) && !old(self).pending().contains_key(sender_id@) && msg is Some,
            r matches Ok(req) ==> {
                &&& expected_request(req, before_nth_char(current_account_id@, '.', 0),
                    old(self).token_contracts()[token_contract@], sender_id@, amount, msg.unwrap())
                &&& final(self).pending() == old(self).pending().insert(sender_id@, req)
            },
    {
        let key = String::from_str(token_contract);
        let token_denom = match self.token_contracts.get(&key) {
            Some(d) => d.duplicate(),
            None => { return Err(ChannelEscrowError::UnregisteredTokenContract); },
        };
        if self.pending_transfer_requests.contains_key(&sender_id) {
            return Err(ChannelEscrowError::PendingTransferRequestExists);
        }
        let msg = match msg {
            Some(m) => m,
            None => { return Err(ChannelEscrowError::InvalidMsg); },
        };
        let channel_id = match text_before_nth(current_account_id, '.', 0) {
            Some(c) => c,
            None => String::new(),
        };
        let transfer_request = Ics20TransferRequest {
            port_on_a: String::from_str(transfer_port_id()),
            chan_on_a: channel_id,
            token_trace_path: token_denom.trace_path,
            token_denom: token_denom.base_denom,
            amount,
            sender: sender_id.clone(),
            receiver: msg.receiver,
            timeout_seconds: msg.timeout_seconds,
        };
        let recorded = transfer_request.copied();
        self.pending_transfer_requests.insert(sender_id, recorded);
        Ok(transfer_request)
    }

    /// Removes the pending request of `account_id` when it matches the given transfer.
    pub fn checked_remove_pending_transfer_request(
        &mut self,
        trace_path: &String,
        base_denom: &String,
        account_id: &String,
        amount: u128,
    ) -> (r: Result<(), ChannelEscrowError>)
        requires
            old(self).wf(),
        ensures
            final(self).wf(),
            final(self).ibc_account() == old(self).ibc_account(),
            final(self).token_contracts() == old(self).token_contracts(),
            final(self).denoms() == old(self).denoms(),
            !old(self).pending().contains_key(account_id@) ==> r == Err::<(), ChannelEscrowError>(ChannelEscrowError::NoPendingTransferRequest),
            old(self).pending().contains_key(account_id@) && !request_matches(old(self).pending()[account_id@], trace_path@, base_denom@, amount)
                ==> r == Err::<(), ChannelEscrowError>(ChannelEscrowError::PendingTransferRequestNotMatched),
            r is Ok <==> old(self).pending().contains_key(account_id@) && request_matches(old(self).pending()[account_id@], trace_path@, base_denom@, amount),
            r is Ok ==> final(self).pending() == old(self).pending().remove(account_id@),
            r is Err ==> final(self).pending() == old(self).pending(),
    {
        let matched = match self.pending_transfer_requests.get(account_id) {
            Some(req) => req.amount == amount && same_text(req.token_denom.as_str(), base_denom.as_str())
                && same_text(req.token_trace_path.as_str(), trace_path.as_str()),
            None => { return Err(ChannelEscrowError::NoPendingTransferRequest); },
        };
        if !matched {
            return Err(ChannelEscrowError::PendingTransferRequestNotMatched);
        }
        self.pending_transfer_requests.remove(account_id);
        Ok(())
    }

    /// The checked form of `register_asset`: the error with which the contract fails on a call that `register_asset` does not take, else what `register_asset` does.
    ///
    /// Registers the token contract of a NEAR asset; called by the IBC implementation.
    pub fn try_register_asset(&mut self, predecessor_account_id: &str, base_denom: String, token_contract: String) -> (r: Result<(), ChannelEscrowError>)
        requires
            old(self).wf(),
        ensures
            final(self).wf(),
            final(self).ibc_account() == old(self).ibc_account(),
            final(self).pending() == old(self).pending(),
            predecessor_account_id@ != old(self).ibc_account() ==> r == Err::<(), ChannelEscrowError>(ChannelEscrowError::NotNearIbcAccount),
            predecessor_account_id@ == old(self).ibc_account() && old(self).denoms().contains_key((Seq::<char>::empty(), base_denom@))
                ==> r == Err::<(), ChannelEscrowError>(ChannelEscrowError::TokenContractAlreadyRegistered),
            r is Ok <==> predecessor_account_id@ == old(self).ibc_account() && !old(self).denoms().contains_key((Seq::<char>::empty(), base_denom@)),
            r is Ok ==> {
                &&& final(self).token_contracts().dom() == old(self).token_contracts().dom().insert(token_contract@)
                &&& final(self).token_contracts()[token_contract@].trace_path@ == Seq::<char>::empty()
                &&& final(self).token_contracts()[token_contract@].base_denom@ == base_denom@
                &&& forall|t| #[trigger] old(self).token_contracts().contains_key(t) && t != token_contract@
                    ==> final(self).token_contracts()[t] == old(self).token_contracts()[t]
                &&& final(self).denoms().dom() == old(self).denoms().dom().insert((Seq::<char>::empty(), base_denom@))
                &&& final(self).denoms()[(Seq::<char>::empty(), base_denom@)]@ == token_contract@
                &&& forall|d| #[trigger] old(self).denoms().contains_key(d) ==> final(self).denoms()[d] == old(self).denoms()[d]
            },
            r is Err ==> final(self).token_contracts() == old(self).token_contracts() && final(self).denoms() == old(self).denoms(),
    {
        self.assert_near_ibc_account(predecessor_account_id)?;
        let asset_denom = AssetDenom { trace_path: String::new(), base_denom };
        if self.denom_to_token_contract_map.contains_key(&asset_denom) {
            return Err(ChannelEscrowError::TokenContractAlreadyRegistered);
        }
        self.token_contracts.insert(token_contract.clone(), asset_denom.duplicate());
        self.denom_to_token_contract_map.insert(asset_denom, token_contract);
        Ok(())
    }

    /// The checked form of `do_transfer`: the error with which the contract fails on a call that `do_transfer` does not take, else what `do_transfer` does.
    ///
    /// Finds the token contract of a denomination that the escrow holds; called by
    /// the IBC implementation to send tokens back to `receiver_id`. Returns the token
    /// contract on which `ft_transfer` of the amount to the receiver is to be called.
    pub fn try_do_transfer(
        &self,
        predecessor_account_id: &str,
        attached_deposit: u128,
        trace_path: String,
        base_denom: String,
    ) -> (r: Result<String, ChannelEscrowError>)
        requires
            self.wf(),
        ensures
            predecessor_account_id@ != self.ibc_account() ==> r == Err::<String, ChannelEscrowError>(ChannelEscrowError::NotNearIbcAccount),
            predecessor_account_id@ == self.ibc_account() && !self.denoms().contains_key((trace_path@, base_denom@))
                ==> r == Err::<String, ChannelEscrowError>(ChannelEscrowError::InvalidTokenDenom),
            predecessor_account_id@ == self.ibc_account() && self.denoms().contains_key((trace_path@, base_denom@)) && attached_deposit != 1
                ==> r == Err::<String, ChannelEscrowError>(ChannelEscrowError::RequiresOneYocto),
            r is Ok <==> predecessor_account_id@ == self.ibc_account() && self.denoms().contains_key((trace_path@, base_denom@)) && attached_deposit == 1,
            r matches Ok(c) ==> c@ == self.denoms()[(trace_path@, base_denom@)]@,
    {
        self.assert_near_ibc_account(predecessor_account_id)?;
        let asset_denom = AssetDenom { trace_path, base_denom };
        let token_contract = match self.denom_to_token_contract_map.get(&asset_denom) {
            Some(c) => c.clone(),
            None => { return Err(ChannelEscrowError::InvalidTokenDenom); },
        };
        if attached_deposit != 1 {
            return Err(ChannelEscrowError::RequiresOneYocto);
        }
        Ok(token_contract)
    }

    /// The checked form of `apply_transfer_request`: the error with which the contract fails on a call that `apply_transfer_request` does not take, else what `apply_transfer_request` does.
    ///
    /// Settles the pending request of `sender_id` once the IBC implementation has
    /// sent the transfer.
    pub fn try_apply_transfer_request(
        &mut self,
        predecessor_account_id: &str,
        trace_path: String,
        base_denom: String,
        sender_id: String,
        amount: u128,
    ) -> (r: Result<(), ChannelEscrowError>)
        requires
            old(self).wf(),
        ensures
            final(self).wf(),
            final(self).ibc_account() == old(self).ibc_account(),
            final(self).token_contracts() == old(self).token_contracts(),
            final(self).denoms() == old(self).denoms(),
            predecessor_account_id@ != old(self).ibc_account() ==> r == Err::<(), ChannelEscrowError>(ChannelEscrowError::NotNearIbcAccount),
            predecessor_account_id@ == old(self).ibc_account() && !old(self).denoms().contains_key((trace_path@, base_denom@))
                ==> r == Err::<(), ChannelEscrowError>(ChannelEscrowError::InvalidTokenDenom),
            predecessor_account_id@ == old(self).ibc_account() && old(self).denoms().contains_key((trace_path@, base_denom@))
                && !old(self).pending().contains_key(sender_id@)
                ==> r == Err::<(), ChannelEscrowError>(ChannelEscrowError::NoPendingTransferRequest),
            predecessor_account_id@ == old(self).ibc_account() && old(self).denoms().contains_key((trace_path@, base_denom@))
                && old(self).pending().contains_key(sender_id@)
                && !request_matches(old(self).pending()[sender_id@], trace_path@, base_denom@, amount)
                ==> r == Err::<(), ChannelEscrowError>(ChannelEscrowError::PendingTransferRequestNotMatched),
            r is Ok <==> predecessor_account_id@ == old(self).ibc_account() && old(self).denoms().contains_key((trace_path@, base_denom@))
                && old(self).pending().contains_key(sender_id@)
                && request_matches(old(self).pending()[sender_id@], trace_path@, base_denom@, amount),
            r is Ok ==> final(self).pending() == old(self).pending().remove(sender_id@),
            r is Err ==> final(self).pending() == old(self).pending(),
    {
        self.assert_near_ibc_account(predecessor_account_id)?;
        let asset_denom = AssetDenom { trace_path, base_denom };
        if !self.denom_to_token_contract_map.contains_key(&asset_denom) {
            return Err(ChannelEscrowError::InvalidTokenDenom);
        }
        self.checked_remove_pending_transfer_request(&asset_denom.trace_path, &asset_denom.base_denom, &sender_id, amount)
    }

    /// The checked form of `cancel_transfer_request`: the error with which the contract fails on a call that `cancel_transfer_request` does not take, else what `cancel_transfer_request` does.
    ///
    /// Drops the pending request of `sender_id` when the IBC implementation could
    /// not send the transfer. Returns the token contract on which `ft_transfer`
    /// gives the amount back to the sender.
    pub fn try_cancel_transfer_request(
        &mut self,
        predecessor_account_id: &str,
        trace_path: String,
        base_denom: String,
        sender_id: String,
        amount: u128,
    ) -> (r: Result<String, ChannelEscrowError>)
        requires
            old(self).wf(),
        ensures
            final(self).wf(),
            final(self).ibc_account() == old(self).ibc_account(),
            final(self).token_contracts() == old(self).token_contracts(),
            final(self).denoms() == old(self).denoms(),
            predecessor_account_id@ != old(self).ibc_account() ==> r == Err::<String, ChannelEscrowError>(ChannelEscrowError::NotNearIbcAccount),
            predecessor_account_id@ == old(self).ibc_account() && !old(self).denoms().contains_key((trace_path@, base_denom@))
                ==> r == Err::<String, ChannelEscrowError>(ChannelEscrowError::InvalidTokenDenom),
            predecessor_account_id@ == old(self).ibc_account() && old(self).denoms().contains_key((trace_path@, base_denom@))
                && !old(self).pending().contains_key(sender_id@)
                ==> r == Err::<String, ChannelEscrowError>(ChannelEscrowError::NoPendingTransferRequest),
            predecessor_account_id@ == old(self).ibc_account() && old(self).denoms().contains_key((trace_path@, base_denom@))
                && old(self).pending().contains_key(sender_id@)
                && !request_matches(old(self).pending()[sender_id@], trace_path@, base_denom@, amount)
                ==> r == Err::<String, ChannelEscrowError>(ChannelEscrowError::PendingTransferRequestNotMatched),
            r is Ok <==> predecessor_account_id@ == old(self).ibc_account() && old(self).denoms().contains_key((trace_path@, base_denom@))
                && old(self).pending().contains_key(sender_id@)
                && request_matches(old(self).pending()[sender_id@], trace_path@, base_denom@, amount),
            r matches Ok(c) ==> c@ == old(self).denoms()[(trace_path@, base_denom@)]@
                && final(self).pending() == old(self).pending().remove(sender_id@),
            r is Err ==> final(self).pending() == old(self).pending(),
    {
        self.assert_near_ibc_account(predecessor_account_id)?;
        let asset_denom = AssetDenom { trace_path, base_denom };
        let token_contract = match self.denom_to_token_contract_map.get(&asset_denom) {
            Some(c) => c.clone(),
            None => { return Err(ChannelEscrowError::InvalidTokenDenom); },
        };
        self.checked_remove_pending_transfer_request(&asset_denom.trace_path, &asset_denom.base_denom, &sender_id, amount)?;
        Ok(token_contract)
    }

    /// Accepts tokens that `sender_id` sent with `ft_transfer_call` from a
    /// registered token contract with no pending request of the sender, and a
    /// message that parsed (the contract fails on any other call, which sends the
    /// tokens back): records the transfer request that goes to the IBC
    /// implementation.
    pub fn ft_on_transfer(
        &mut self,
        token_contract: &str,
        current_account_id: &str,
        sender_id: String,
        amount: u128,
        msg: FtOnTransferMsg,
    ) -> (r: Ics20TransferRequest)
        requires
            old(self).wf(),
            char_count(current_account_id@, '.') >= 1,
            old(self).token_contracts().contains_key(token_contract@),
            !old(self).pending().contains_key(sender_id@),
        ensures
            final(self).wf(),
            final(self).ibc_account() == old(self).ibc_account(),
            final(self).token_contracts() == old(self).token_contracts(),
            final(self).denoms() == old(self).denoms(),
            expected_request(r, before_nth_char(current_account_id@, '.', 0),
                old(self).token_contracts()[token_contract@], sender_id@, amount, msg),
            final(self).pending() == old(self).pending().insert(sender_id@, r),
    {
        self.try_ft_on_transfer(token_contract, current_account_id, sender_id, amount, Some(msg)).unwrap()
    }

    /// Registers the token contract of a NEAR asset whose denomination has none
    /// yet; called by the IBC implementation (the contract fails on any other
    /// call).
    pub fn register_asset(&mut self, predecessor_account_id: &str, base_denom: String, token_contract: String)
        requires
            old(self).wf(),
            predecessor_account_id@ == old(self).ibc_account(),
            !old(self).denoms().contains_key((Seq::<char>::empty(), base_denom@)),
        ensures
            final(self).wf(),
            final(self).ibc_account() == old(self).ibc_account(),
            final(self).pending() == old(self).pending(),
            final(self).token_contracts().dom() == old(self).token_contracts().dom().insert(token_contract@),
            final(self).token_contracts()[token_contract@].trace_path@ == Seq::<char>::empty(),
            final(self).token_contracts()[token_contract@].base_denom@ == base_denom@,
            forall|t| #[trigger] old(self).token_contracts().contains_key(t) && t != token_contract@
                ==> final(self).token_contracts()[t] == old(self).token_contracts()[t],
            final(self).denoms().dom() == old(self).denoms().dom().insert((Seq::<char>::empty(), base_denom@)),
            final(self).denoms()[(Seq::<char>::empty(), base_denom@)]@ == token_contract@,
            forall|d| #[trigger] old(self).denoms().contains_key(d) ==> final(self).denoms()[d] == old(self).denoms()[d],
    {
        self.try_register_asset(predecessor_account_id, base_denom, token_contract).unwrap()
    }

    /// The token contract on which `ft_transfer` sends tokens of a denomination
    /// that the escrow holds back to a receiver; called by the IBC implementation
    /// with one yoctoNEAR (the contract fails on any other call).
    pub fn do_transfer(
        &self,
        predecessor_account_id: &str,
        attached_deposit: u128,
        trace_path: String,
        base_denom: String,
    ) -> (r: String)
        requires
            self.wf(),
            predecessor_account_id@ == self.ibc_account(),
            self.denoms().contains_key((trace_path@, base_denom@)),
            attached_deposit == 1,
        ensures
            r@ == self.denoms()[(trace_path@, base_denom@)]@,
    {
        self.try_do_transfer(predecessor_account_id, attached_deposit, trace_path, base_denom).unwrap()
    }

    /// Settles the pending request of `sender_id` once the IBC implementation has
    /// sent the transfer, for a call that `try_apply_transfer_request` accepts
    /// (the contract fails on any other).
    pub fn apply_transfer_request(
        &mut self,
        predecessor_account_id: &str,
        trace_path: String,
        base_denom: String,
        sender_id: String,
        amount: u128,
    )
        requires
            old(self).wf(),
            predecessor_account_id@ == old(self).ibc_account(),
            old(self).denoms().contains_key((trace_path@, base_denom@)),
            old(self).pending().contains_key(sender_id@),
            request_matches(old(self).pending()[sender_id@], trace_path@, base_denom@, amount),
        ensures
            final(self).wf(),
            final(self).ibc_account() == old(self).ibc_account(),
            final(self).token_contracts() == old(self).token_contracts(),
            final(self).denoms() == old(self).denoms(),
            final(self).pending() == old(self).pending().remove(sender_id@),
    {
        self.try_apply_transfer_request(predecessor_account_id, trace_path, base_denom, sender_id, amount).unwrap()
    }

    /// Drops the pending request of `sender_id` when the IBC implementation could
    /// not send the transfer, for a call that `try_cancel_transfer_request`
    /// accepts (the contract fails on any other). Returns the token contract on
    /// which `ft_transfer` gives the amount back to the sender.
    pub fn cancel_transfer_request(
        &mut self,
        predecessor_account_id: &str,
        trace_path: String,
        base_denom: String,
        sender_id: String,
        amount: u128,
    ) -> (r: String)
        requires
            old(self).wf(),
            predecessor_account_id@ == old(self).ibc_account(),
            old(self).denoms().contains_key((trace_path@, base_denom@)),
            old(self).pending().contains_key(sender_id@),
            request_matches(old(self).pending()[sender_id@], trace_path@, base_denom@, amount),
        ensures
            final(self).wf(),
            final(self).ibc_account() == old(self).ibc_account(),
            final(self).token_contracts() == old(self).token_contracts(),
            final(self).denoms() == old(self).denoms(),
            r@ == old(self).denoms()[(trace_path@, base_denom@)]@,
            final(self).pending() == old(self).pending().remove(sender_id@),
    {
        self.try_cancel_transfer_request(predecessor_account_id, trace_path, base_denom, sender_id, amount).unwrap()
    }

    /// All registered token contracts with their denominations.
    pub fn get_registered_assets(&self) -> (r: Vec<RegisteredAsset>)
        requires
            self.wf(),
        ensures
            r.len() == self.registered_contracts().len(),
            forall|i: int| 0 <= i < r.len() ==> {
                &&& (#[trigger] r[i]).token_contract@ == self.registered_contracts()[i]
                &&& self.token_contracts().contains_key(r[i].token_contract@)
                &&& r[i].asset_denom.key_view() == self.token_contracts()[r[i].token_contract@].key_view()
            },
    {
        proof {
            self.token_contracts.lemma_keys();
        }
        let n = self.token_contracts.len();
        let mut r: Vec<RegisteredAsset> = Vec::new();
        let mut i: usize = 0;
        while i < n
            invariant
                self.wf(),
                n == self.registered_contracts().len(),
                i <= n,
                r.len() == i,
                forall|k: Seq<char>| #[trigger] self.token_contracts().contains_key(k) <==> self.registered_contracts().contains(k),
                forall|j: int| 0 <= j < i ==> {
                    &&& (#[trigger] r[j]).token_contract@ == self.registered_contracts()[j]
                    &&& self.token_contracts().contains_key(r[j].token_contract@)
                    &&& r[j].asset_denom.key_view() == self.token_contracts()[r[j].token_contract@].key_view()
                },
            decreases n - i,
        {
            let token_contract = self.token_contracts.key_at(i);
            let asset_denom = self.token_contracts.value_at(i).duplicate();
            proof {
                assert(self.registered_contracts().contains(self.registered_contracts()[i as int]));
            }
            r.push(RegisteredAsset { token_contract, asset_denom });
            i = i + 1;
        }
        r
    }

    /// The accounts that have a pending transfer request.
    pub fn get_pending_accounts(&self) -> (r: Vec<String>)
        requires
            self.wf(),
        ensures
            r.len() == self.pending_accounts().len(),
            forall|i: int| 0 <= i < r.len() ==> (#[trigger] r[i])@ == self.pending_accounts()[i],
            forall|k: Seq<char>| #[trigger] self.pending().contains_key(k) <==> self.pending_accounts().contains(k),
            self.pending_accounts().no_duplicates(),
    {
        proof {
            self.pending_transfer_requests.lemma_keys();
        }
        let n = self.pending_transfer_requests.len();
        let mut r: Vec<String> = Vec::new();
        let mut i: usize = 0;
        while i < n
            invariant
                self.wf(),
                n == self.pending_accounts().len(),
                i <= n,
                r.len() == i,
                forall|j: int| 0 <= j < i ==> (#[trigger] r[j])@ == self.pending_accounts()[j],
            decreases n - i,
        {
            r.push(self.pending_transfer_requests.key_at(i));
            i = i + 1;
        }
        r
    }

    /// The pending transfer request of `account_id`, if there is one.
    pub fn get_pending_transfer_request_of(&self, account_id: &String) -> (r: Option<Ics20TransferRequest>)
        requires
            self.wf(),
        ensures
            r.is_some() <==> self.pending().contains_key(account_id@),
            r matches Some(req) ==> req == self.pending()[account_id@],
    {
        match self.pending_transfer_requests.get(account_id) {
            Some(req) => Some(req.copied()),
            None => None,
        }
    }

    /// The registered token contracts, in the order in which they were registered,
    /// and the denomination of each.
    pub closed spec fn registered(&self) -> (Seq<Seq<char>>, Map<Seq<char>, AssetDenom>) {
        (self.token_contracts.key_views(), self.token_contracts@)
    }
}

/// The state of the escrow as its version before the map from denomination to
/// token contract stored it.
pub struct OldContract {
    pub near_ibc_account: String,
    pub token_contracts: ViewMap<String, AssetDenom>,
    pub pending_transfer_requests: ViewMap<String, Ics20TransferRequest>,
}

impl StorageMigration for Contract {
    type Old = OldContract;

    open spec fn old_wf(old: &OldContract) -> bool {
        old.token_contracts.wf() && old.pending_transfer_requests.wf()
    }

    /// Keeps the old state and fills the map from denomination to token contract
    /// from the registered token contracts.
    fn migrate_state(old: OldContract) -> (r: Contract)
        ensures
            ({
                &&& r.wf()
                &&& r.ibc_account() == old.near_ibc_account@
                &&& r.token_contracts() == old.token_contracts@
                &&& r.pending() == old.pending_transfer_requests@
                &&& forall|t: Seq<char>| #[trigger] old.token_contracts@.contains_key(t)
                    ==> r.denoms().contains_key(old.token_contracts@[t].key_view())
                &&& forall|d: (Seq<char>, Seq<char>)| #[trigger] r.denoms().contains_key(d)
                    ==> old.token_contracts@.contains_key(r.denoms()[d]@) && old.token_contracts@[r.denoms()[d]@].key_view() == d
            }),
    {
        let OldContract { near_ibc_account, token_contracts, pending_transfer_requests } = old;
        let mut denoms: ViewMap<AssetDenom, String> = ViewMap::new();
        {
            proof {
                token_contracts.lemma_keys();
            }
            let n = token_contracts.len();
            let mut i: usize = 0;
            while i < n
                invariant
                    token_contracts.wf(),
                    denoms.wf(),
                    n == token_contracts.key_views().len(),
                    i <= n,
                    forall|t: Seq<char>| #[trigger] token_contracts@.contains_key(t) <==> token_contracts.key_views().contains(t),
                    forall|j: int| 0 <= j < i ==> denoms@.contains_key(token_contracts@[#[trigger] token_contracts.key_views()[j]].key_view()),
                    forall|d: (Seq<char>, Seq<char>)| #[trigger] denoms@.contains_key(d)
                        ==> token_contracts@.contains_key(denoms@[d]@) && token_contracts@[denoms@[d]@].key_view() == d,
                decreases n - i,
            {
                let contract = token_contracts.key_at(i);
                let denom = token_contracts.value_at(i).duplicate();
                proof {
                    assert(token_contracts.key_views().contains(token_contracts.key_views()[i as int]));
                }
                denoms.insert(denom, contract);
                i = i + 1;
            }
            proof {
                assert forall|t: Seq<char>| #[trigger] token_contracts@.contains_key(t)
                    implies denoms@.contains_key(token_contracts@[t].key_view()) by {
                    assert(token_contracts.key_views().contains(t));
                    let j = choose|j: int| 0 <= j < token_contracts.key_views().len() && token_contracts.key_views()[j] == t;
                }
            }
        }
        Contract { near_ibc_account, token_contracts, pending_transfer_requests, denom_to_token_contract_map: denoms }
    }
}

/// A transfer request that `ft_on_transfer` records for a sender is settled by
/// the same denomination, sender and amount: `apply_transfer_request` and
/// `cancel_transfer_request` find it matching, and removing it brings the pending
/// requests back to what they were before.
pub proof fn law_recorded_request_settles(
    c0: Contract,
    c1: Contract,
    req: Ics20TransferRequest,
    channel: Seq<char>,
    denom: AssetDenom,
    sender: Seq<char>,
    amount: u128,
    msg: FtOnTransferMsg,
)
    requires
        !c0.pending().contains_key(sender),
        expected_request(req, channel, denom, sender, amount, msg),
        c1.pending() == c0.pending().insert(sender, req),
    ensures
        c1.pending().contains_key(sender),
        request_matches(c1.pending()[sender], denom.trace_path@, denom.base_denom@, amount),
        c1.pending().remove(sender) == c0.pending(),
{
    assert(c1.pending().remove(sender) =~= c0.pending());
}

} // verus!
