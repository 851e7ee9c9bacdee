use vstd::prelude::*;
use vstd::bytes::{spec_u128_from_le_bytes, spec_u128_to_le_bytes};
use crate::outside::{borsh_u128_bytes, borsh_u128_from};
use crate::text::same_text;

verus! {

/// The deposit that each message given to `deliver` must come with: 0.05 NEAR,
/// for up to 5 kB of storage.
pub const MINIMUM_DEPOSIT_FOR_DELEVER_MSG: u128 = 50_000_000_000_000_000_000_000;
/// The storage deposit for registering an account in a token contract (0.0125 NEAR).
pub const STORAGE_DEPOSIT_FOR_MINT_TOKEN: u128 = 12_500_000_000_000_000_000_000;
/// The balance that a new token contract starts with, for its storage.
pub const INIT_BALANCE_FOR_WRAPPED_TOKEN_CONTRACT: u128 = 3_500_000_000_000_000_000_000_000;
/// The balance that a new channel escrow starts with, for its storage.
pub const INIT_BALANCE_FOR_CHANNEL_ESCROW_CONTRACT: u128 = 3_000_000_000_000_000_000_000_000;
/// Gas for a complex function call: 150 Tgas.
pub const GAS_FOR_COMPLEX_FUNCTION_CALL: u64 = 150_000_000_000_000;
/// Gas for a simple function call: 5 Tgas.
pub const GAS_FOR_SIMPLE_FUNCTION_CALL: u64 = 5_000_000_000_000;

/// The deposit that a call spends beyond its own storage, such as the balance
/// handed to a contract that it creates. It is kept in storage between the
/// steps of a call as the borsh encoding of the amount.
pub struct ExtraDepositCost(pub u128);

impl ExtraDepositCost {
    /// The stored bytes that set the cost back to zero.
    pub fn reset() -> (r: Vec<u8>)
        ensures
            r@ == spec_u128_to_le_bytes(0),
    {
        borsh_u128_bytes(0)
    }

    /// The cost that the stored bytes hold: zero when nothing is stored.
    pub fn get(stored: Option<&[u8]>) -> (r: Self)
        requires
            stored matches Some(b) ==> b@.len() == 16,
        ensures
            stored is None ==> r.0 == 0,
            stored matches Some(b) ==> r.0 == spec_u128_from_le_bytes(b@),
    {
        match stored {
            Some(bytes) => match borsh_u128_from(bytes) {
                Some(v) => ExtraDepositCost(v),
                None => ExtraDepositCost(0),
            },
            None => ExtraDepositCost(0),
        }
    }

    /// The stored bytes after adding `cost` to the cost that `stored` holds.
    pub fn add(stored: Option<&[u8]>, cost: u128) -> (r: Vec<u8>)
        requires
            stored matches Some(b) ==> b@.len() == 16,
            (match stored {
                Some(b) => spec_u128_from_le_bytes(b@) as int,
                None => 0int,
            }) + cost <= u128::MAX,
        ensures
            r@ == spec_u128_to_le_bytes((match stored {
                Some(b) => spec_u128_from_le_bytes(b@) as int,
                None => 0int,
            } + cost) as u128),
    {
        let current = Self::get(stored);
        borsh_u128_bytes(current.0 + cost)
    }
}

/// What a payable call refunds of the attached deposit: nothing when the storage
/// it added and its extra cost take all of it, else the rest.
pub open spec fn refund_amount(
    attached_deposit: u128,
    extra_deposit_cost: u128,
    storage_usage: u64,
    previously_used_bytes: u64,
    storage_byte_cost: u128,
) -> Option<u128> {
    if storage_usage > previously_used_bytes || extra_deposit_cost > 0 {
        let increment = if storage_usage > previously_used_bytes { storage_usage - previously_used_bytes } else { 0 };
        let cost = storage_byte_cost * increment + extra_deposit_cost;
        if cost >= attached_deposit {
            None
        } else {
            Some((attached_deposit - cost) as u128)
        }
    } else {
        Some(attached_deposit)
    }
}

/// The amount to refund to the caller at the end of a payable call, given the
/// storage used before it, or `None` when nothing is left to refund.
pub fn refund_deposit(
    attached_deposit: u128,
    extra_deposit_cost: u128,
    storage_usage: u64,
    previously_used_bytes: u64,
    storage_byte_cost: u128,
) -> (r: Option<u128>)
    requires
        storage_usage > previously_used_bytes ==> storage_byte_cost * (storage_usage - previously_used_bytes)
            + extra_deposit_cost <= u128::MAX,
    ensures
        r == refund_amount(attached_deposit, extra_deposit_cost, storage_usage, previously_used_bytes, storage_byte_cost),
{
    let mut refund = attached_deposit;
    if storage_usage > previously_used_bytes || extra_deposit_cost > 0 {
        let increment: u64 = if storage_usage > previously_used_bytes { storage_usage - previously_used_bytes } else { 0 };
        proof {
            assert(storage_byte_cost * (increment as u128) <= u128::MAX) by (nonlinear_arith)
                requires
                    increment > 0 ==> storage_byte_cost * increment + extra_deposit_cost <= u128::MAX,
                    increment == 0 ==> storage_byte_cost * increment == 0;
        }
        let cost = storage_byte_cost * (increment as u128) + extra_deposit_cost;
        if cost >= refund {
            return None;
        } else {
            refund = refund - cost;
        }
    }
    Some(refund)
}

/// The deposit that `deliver` asks for `n` messages.
pub fn minimum_deposit_for_messages(n: usize) -> (r: u128)
    requires
        MINIMUM_DEPOSIT_FOR_DELEVER_MSG * n <= u128::MAX,
    ensures
        r == MINIMUM_DEPOSIT_FOR_DELEVER_MSG * n,
{
    MINIMUM_DEPOSIT_FOR_DELEVER_MSG * (n as u128)
}

/// What storing a new contract code of `blob_len` bytes in place of one of
/// `current_len` bytes costs, when it is longer: the storage of the account after
/// the write, at the given price per byte.
pub open spec fn wasm_storage_cost(storage_usage: u64, blob_len: u64, current_len: u64, storage_byte_cost: u128) -> int {
    (storage_usage + blob_len - current_len) * storage_byte_cost
}

/// Checks that the account balance covers the storage of a new contract code.
/// Returns the missing amount when it does not.
pub fn check_wasm_storage(
    storage_usage: u64,
    blob_len: u64,
    current_len: u64,
    storage_byte_cost: u128,
    account_balance: u128,
) -> (r: Result<(), u128>)
    requires
        blob_len > current_len ==> storage_usage + blob_len <= u64::MAX,
        blob_len > current_len ==> wasm_storage_cost(storage_usage, blob_len, current_len, storage_byte_cost) <= u128::MAX,
    ensures
        blob_len <= current_len ==> r is Ok,
        blob_len > current_len ==> {
            let cost = wasm_storage_cost(storage_usage, blob_len, current_len, storage_byte_cost);
            &&& r is Ok <==> account_balance >= cost
            &&& r matches Err(missing) ==> missing == cost - account_balance
        },
{
    if blob_len > current_len {
        let bytes: u64 = storage_usage + blob_len - current_len;
        let cost: u128 = (bytes as u128) * storage_byte_cost;
        if account_balance < cost {
            return Err(cost - account_balance);
        }
    }
    Ok(())
}

/// Why a factory refuses to store a new contract code: the caller is not the
/// factory's own account, or the account balance does not cover the storage, by
/// the amount given.
#[derive(Clone, Copy, Debug, PartialEq, Eq, Structural)]
pub enum WasmStoreError {
    NotAllowed,
    NotEnoughAccountBalance(u128),
}

impl WasmStoreError {
    /// The message that the contract fails with.
    pub fn message(&self) -> (r: &'static str)
        ensures
            r@ == self.message_text(),
    {
        match self {
            WasmStoreError::NotAllowed => "ERR_NOT_ALLOWED",
            WasmStoreError::NotEnoughAccountBalance(_) => "ERR_NOT_ENOUGH_ACCOUNT_BALANCE",
        }
    }

    /// The message of the error, as text.
    pub open spec fn message_text(&self) -> Seq<char> {
        match self {
            WasmStoreError::NotAllowed => "ERR_NOT_ALLOWED"@,
            WasmStoreError::NotEnoughAccountBalance(_) => "ERR_NOT_ENOUGH_ACCOUNT_BALANCE"@,
        }
    }
}

/// The storage of a new contract code can be priced without overflow.
pub open spec fn wasm_store_fits(blob_len: nat, current_len: u64, storage_usage: u64, storage_byte_cost: u128) -> bool {
    blob_len > current_len ==> {
        &&& storage_usage + blob_len <= u64::MAX
        &&& wasm_storage_cost(storage_usage, blob_len as u64, current_len, storage_byte_cost) <= u128::MAX
    }
}

/// Why storing a new contract code of `blob_len` bytes, in place of one of
/// `current_len` bytes, is refused, if it is.
pub open spec fn wasm_store_refusal(
    predecessor_account_id: Seq<char>,
    current_account_id: Seq<char>,
    blob_len: nat,
    current_len: u64,
    storage_usage: u64,
    storage_byte_cost: u128,
    account_balance: u128,
) -> Option<WasmStoreError> {
    let cost = wasm_storage_cost(storage_usage, blob_len as u64, current_len, storage_byte_cost);
    if predecessor_account_id != current_account_id {
        Some(WasmStoreError::NotAllowed)
    } else if blob_len > current_len && account_balance < cost {
        Some(WasmStoreError::NotEnoughAccountBalance((cost - account_balance) as u128))
    } else {
        None
    }
}

/// Checks that a factory may store a new contract code: only its own account may,
/// and when the code is longer than the stored one, the account balance must cover
/// the account's storage after the write.
pub fn check_wasm_store(
    predecessor_account_id: &str,
    current_account_id: &str,
    blob_len: u64,
    current_len: u64,
    storage_usage: u64,
    storage_byte_cost: u128,
    account_balance: u128,
) -> (r: Result<(), WasmStoreError>)
    requires
        wasm_store_fits(blob_len as nat, current_len, storage_usage, storage_byte_cost),
    ensures
        match wasm_store_refusal(predecessor_account_id@, current_account_id@, blob_len as nat, current_len,
            storage_usage, storage_byte_cost, account_balance) {
            Some(e) => r == Err::<(), WasmStoreError>(e),
            None => r is Ok,
        },
{
    if !same_text(predecessor_account_id, current_account_id) {
        return Err(WasmStoreError::NotAllowed);
    }
    match check_wasm_storage(storage_usage, blob_len, current_len, storage_byte_cost, account_balance) {
        Ok(()) => Ok(()),
        Err(missing) => Err(WasmStoreError::NotEnoughAccountBalance(missing)),
    }
}

/// What the cost cell stores reads back: the bytes written for a cost decode to
/// that cost, so `get` after `reset` gives zero and `get` after `add` gives the
/// sum.
pub proof fn law_extra_deposit_cost_read_back(cost: u128)
    ensures
        spec_u128_to_le_bytes(cost).len() == 16,
        spec_u128_from_le_bytes(spec_u128_to_le_bytes(cost)) == cost,
{
    vstd::bytes::lemma_auto_spec_u128_to_from_le_bytes();
    assert(spec_u128_to_le_bytes(cost).len() == 16);
}

/// A refund never exceeds the attached deposit.
pub proof fn law_refund_within_deposit(
    attached_deposit: u128,
    extra_deposit_cost: u128,
    storage_usage: u64,
    previously_used_bytes: u64,
    storage_byte_cost: u128,
)
    ensures
        refund_amount(attached_deposit, extra_deposit_cost, storage_usage, previously_used_bytes, storage_byte_cost) matches Some(x)
            ==> x <= attached_deposit,
{
    if storage_usage > previously_used_bytes {
        assert(storage_byte_cost * (storage_usage - previously_used_bytes) >= 0) by (nonlinear_arith)
            requires
                storage_usage > previously_used_bytes;
    }
}

} // verus!
