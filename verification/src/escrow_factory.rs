use vstd::prelude::*;
use crate::accounts::{assert_ancestor_account, is_sub_account_of, valid_account_id};
use crate::deposit::{check_wasm_store, wasm_store_fits, wasm_store_refusal, WasmStoreError, INIT_BALANCE_FOR_CHANNEL_ESCROW_CONTRACT};
use crate::outside::{base58_hash_json, base58_text, parse_account_id, sha256, sha256_digest};
use crate::text::{char_count, count_char, join_dot};
use crate::view_map::ViewMap;

verus! {

/// Why the escrow factory refuses a call.
#[derive(Clone, Copy, Debug, PartialEq, Eq, Structural)]
pub enum EscrowFactoryError {
    ContractMustBeDeployedInSubAccount,
    NotAncestorAccount,
    InvalidEscrowContractId,
}

impl EscrowFactoryError {
    /// The message that the contract fails with.
    pub fn message(&self) -> (r: &'static str)
        ensures
            r@ == self.message_text(),
    {
        match self {
            EscrowFactoryError::ContractMustBeDeployedInSubAccount => "ERR_CONTRACT_MUST_BE_DEPLOYED_IN_SUB_ACCOUNT",
            EscrowFactoryError::NotAncestorAccount => "ERR_ONLY_UPPER_LEVEL_ACCOUNT_CAN_CALL_THIS_METHOD",
            EscrowFactoryError::InvalidEscrowContractId => "ERR_INVALID_ESCROW_CONTRACT_ID",
        }
    }

    /// The message of the error, as text.
    pub open spec fn message_text(&self) -> Seq<char> {
        match self {
            EscrowFactoryError::ContractMustBeDeployedInSubAccount => "ERR_CONTRACT_MUST_BE_DEPLOYED_IN_SUB_ACCOUNT"@,
            EscrowFactoryError::NotAncestorAccount => "ERR_ONLY_UPPER_LEVEL_ACCOUNT_CAN_CALL_THIS_METHOD"@,
            EscrowFactoryError::InvalidEscrowContractId => "ERR_INVALID_ESCROW_CONTRACT_ID"@,
        }
    }
}

/// What creating the escrow of a channel leads to: the escrow contract to create,
/// when the channel has none yet, and the part of the deposit that is left once
/// the escrow's initial balance is taken.
pub struct EscrowCreation {
    pub escrow_contract_id: Option<String>,
    pub refundable_deposit: u128,
}

/// The factory of the escrow contracts of the channels: it remembers the channels
/// that have one.
pub struct Contract {
    channel_id_set: ViewMap<String, ()>,
}

impl Contract {
    pub closed spec fn wf(&self) -> bool {
        self.channel_id_set.wf()
    }

    /// The channels that have an escrow.
    pub closed spec fn channels(&self) -> Set<Seq<char>> {
        self.channel_id_set@.dom()
    }

    /// A new escrow factory, deployed at an account with at least three parts
    /// (the contract fails to initialise anywhere else).
    pub fn new(current_account_id: &str) -> (c: Contract)
        requires
            char_count(current_account_id@, '.') >= 2,
        ensures
            c.wf(),
            c.channels() == Set::<Seq<char>>::empty(),
    {
        Self::try_new(current_account_id).unwrap()
    }

    /// The checked form of `new`: the error with which the contract fails to initialise where `new` does not apply, else what `new` gives.
    ///
    /// A new factory; the current account must have at least three parts.
    pub fn try_new(current_account_id: &str) -> (r: Result<Contract, EscrowFactoryError>)
        ensures
            r is Ok <==> char_count(current_account_id@, '.') >= 2,
            r matches Ok(c) ==> c.wf() && c.channels() == Set::<Seq<char>>::empty(),
            r matches Err(e) ==> e == EscrowFactoryError::ContractMustBeDeployedInSubAccount,
    {
        if count_char(current_account_id, '.') < 2 {
            return Err(EscrowFactoryError::ContractMustBeDeployedInSubAccount);
        }
        let c = Contract { channel_id_set: ViewMap::new() };
        assert(c.channels() =~= Set::<Seq<char>>::empty());
        Ok(c)
    }

    /// The checked form of `create_escrow`: the error with which the contract fails on a call that `create_escrow` does not take, else what `create_escrow` does.
    ///
    /// Creates the escrow of a channel, once; called by an upper-level account, the
    /// IBC implementation, with a deposit that covers at least the escrow's initial
    /// balance.
    pub fn try_create_escrow(
        &mut self,
        current_account_id: &str,
        predecessor_account_id: &str,
        attached_deposit: u128,
        channel_id: String,
    ) -> (r: Result<EscrowCreation, EscrowFactoryError>)
        requires
            old(self).wf(),
            is_sub_account_of(current_account_id@, predecessor_account_id@) ==> attached_deposit >= INIT_BALANCE_FOR_CHANNEL_ESCROW_CONTRACT,
        ensures
            final(self).wf(),
            !is_sub_account_of(current_account_id@, predecessor_account_id@)
                ==> r == Err::<EscrowCreation, EscrowFactoryError>(EscrowFactoryError::NotAncestorAccount),
            is_sub_account_of(current_account_id@, predecessor_account_id@) && !old(self).channels().contains(channel_id@)
                && !valid_account_id(channel_id@ + seq!['.'] + current_account_id@)
                ==> r == Err::<EscrowCreation, EscrowFactoryError>(EscrowFactoryError::InvalidEscrowContractId),
            r is Ok <==> is_sub_account_of(current_account_id@, predecessor_account_id@)
                && (old(self).channels().contains(channel_id@) || valid_account_id(channel_id@ + seq!['.'] + current_account_id@)),
            r is Err ==> final(self).channels() == old(self).channels(),
            r matches Ok(c) ==> {
                &&& final(self).channels() == old(self).channels().insert(channel_id@)
                &&& c.refundable_deposit == attached_deposit - INIT_BALANCE_FOR_CHANNEL_ESCROW_CONTRACT
                &&& old(self).channels().contains(channel_id@) ==> c.escrow_contract_id is None
                &&& !old(self).channels().contains(channel_id@) ==> (c.escrow_contract_id matches Some(id)
                    && id@ == channel_id@ + seq!['.'] + current_account_id@)
            },
    {
        match assert_ancestor_account(current_account_id, predecessor_account_id) {
            Ok(()) => {},
            Err(_) => { return Err(EscrowFactoryError::NotAncestorAccount); },
        }
        let escrow_contract_id = if !self.channel_id_set.contains_key(&channel_id) {
            let id = join_dot(channel_id.as_str(), current_account_id);
            proof {
                assert(id@ =~= channel_id@ + seq!['.'] + current_account_id@);
            }
            if !parse_account_id(id.as_str()) {
                return Err(EscrowFactoryError::InvalidEscrowContractId);
            }
            self.channel_id_set.insert(channel_id, ());
            Some(id)
        } else {
            None
        };
        Ok(EscrowCreation {
            escrow_contract_id,
            refundable_deposit: attached_deposit - INIT_BALANCE_FOR_CHANNEL_ESCROW_CONTRACT,
        })
    }

    /// Creates the escrow of a channel, once, for a call that `try_create_escrow`
    /// accepts (the contract fails on any other): returns the escrow to create,
    /// none when the channel has one already, and what is left of the deposit.
    pub fn create_escrow(
        &mut self,
        current_account_id: &str,
        predecessor_account_id: &str,
        attached_deposit: u128,
        channel_id: String,
    ) -> (c: EscrowCreation)
        requires
            old(self).wf(),
            is_sub_account_of(current_account_id@, predecessor_account_id@),
            attached_deposit >= INIT_BALANCE_FOR_CHANNEL_ESCROW_CONTRACT,
            old(self).channels().contains(channel_id@) || valid_account_id(channel_id@ + seq!['.'] + current_account_id@),
        ensures
            final(self).wf(),
            final(self).channels() == old(self).channels().insert(channel_id@),
            c.refundable_deposit == attached_deposit - INIT_BALANCE_FOR_CHANNEL_ESCROW_CONTRACT,
            old(self).channels().contains(channel_id@) ==> c.escrow_contract_id is None,
            !old(self).channels().contains(channel_id@) ==> (c.escrow_contract_id matches Some(id)
                && id@ == channel_id@ + seq!['.'] + current_account_id@),
    {
        self.try_create_escrow(current_account_id, predecessor_account_id, attached_deposit, channel_id).unwrap()
    }
}

/// The escrow of a channel is created once: after a creation the channel has an
/// escrow, and another creation for it creates none.
pub proof fn law_escrow_created_once(c0: Contract, c1: Contract, channel_id: Seq<char>, created: Option<String>)
    requires
        c1.channels() == c0.channels().insert(channel_id),
        c1.channels().contains(channel_id) ==> created is None,
    ensures
        c1.channels().contains(channel_id),
        created is None,
{
}

/// Stores a new code of the escrow contract: only the factory's own account may, and
/// when the code is longer than the stored one, of `current_len` bytes, the account
/// balance must cover the account's storage after the write. Returns the JSON text
/// of the SHA-256 digest of the code in base58, which the factory answers with.
pub fn store_wasm_of_escrow_contract(
    predecessor_account_id: &str,
    current_account_id: &str,
    input: &[u8],
    current_len: u64,
    storage_usage: u64,
    storage_byte_cost: u128,
    account_balance: u128,
) -> (r: Result<String, WasmStoreError>)
    requires
        wasm_store_fits(input@.len(), current_len, storage_usage, storage_byte_cost),
    ensures
        match wasm_store_refusal(predecessor_account_id@, current_account_id@, input@.len(), current_len,
            storage_usage, storage_byte_cost, account_balance) {
            Some(e) => r == Err::<String, WasmStoreError>(e),
            None => r matches Ok(json) && json@ == seq!['"'] + base58_text(sha256_digest(input@)) + seq!['"'],
        },
{
    check_wasm_store(
        predecessor_account_id,
        current_account_id,
        input.len() as u64,
        current_len,
        storage_usage,
        storage_byte_cost,
        account_balance,
    )?;
    let digest = sha256(input);
    Ok(base58_hash_json(digest.as_slice()))
}

} // verus!
