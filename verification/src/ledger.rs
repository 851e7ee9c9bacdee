//! The NEP-141 ledger of near-contract-standards, `FungibleToken`, as the wrapped
//! token holds it: the balance of each registered account and the total supply.
//! The ledger keeps its entries in the contract's storage under its prefix, and
//! only its own methods change them.
use vstd::prelude::*;
use near_contract_standards::fungible_token::FungibleToken;
use crate::accounts::valid_account_id;

verus! {

#[verifier::external_type_specification]
#[verifier::external_body]
pub struct ExFungibleToken(FungibleToken);

/// The balance of each account that a `FungibleToken` ledger has registered.
pub uninterp spec fn ft_balances(token: FungibleToken) -> Map<Seq<char>, u128>;

/// The total supply that a `FungibleToken` ledger records.
pub uninterp spec fn ft_total_supply(token: FungibleToken) -> u128;

/// `FungibleToken::new` with the prefix `[0]`, the first key of the wrapped
/// token's storage. It sets the total supply to zero. Which entries the storage
/// already holds under the prefix is not stated.
#[verifier::external_body]
pub(crate) fn ledger_new() -> (r: FungibleToken)
    ensures
        ft_total_supply(r) == 0,
{
    FungibleToken::new(vec![0u8])
}

/// The balance that the ledger's map `accounts` holds for an account, `None` when
/// the account is not registered. The id is read with `AccountId::from_str`,
/// which accepts it.
#[verifier::external_body]
pub(crate) fn ledger_balance(token: &FungibleToken, account_id: &str) -> (r: Option<u128>)
    requires
        valid_account_id(account_id@),
    ensures
        r.is_some() == ft_balances(*token).contains_key(account_id@),
        r matches Some(b) ==> b == ft_balances(*token)[account_id@],
{
    token.accounts.get(&account_id.parse().unwrap())
}

/// `FungibleTokenCore::ft_total_supply`: the total supply field of the ledger.
#[verifier::external_body]
pub(crate) fn ledger_total_supply(token: &FungibleToken) -> (r: u128)
    ensures
        r == ft_total_supply(*token),
{
    near_contract_standards::fungible_token::FungibleTokenCore::ft_total_supply(token).0
}

/// The storage, in bytes, that `FungibleToken::new` measured for one account,
/// the field `account_storage_usage`. The runtime's accounting of storage decides
/// it, so nothing is stated of it.
#[verifier::external_body]
pub(crate) fn ledger_account_storage_usage(token: &FungibleToken) -> (r: u64) {
    token.account_storage_usage
}

/// `FungibleToken::internal_register_account`: records a balance of zero for an
/// account that is not registered yet (it panics on one that is).
#[verifier::external_body]
pub(crate) fn ledger_register(token: &mut FungibleToken, account_id: &str)
    requires
        valid_account_id(account_id@),
        !ft_balances(*old(token)).contains_key(account_id@),
    ensures
        ft_balances(*final(token)) == ft_balances(*old(token)).insert(account_id@, 0),
        ft_total_supply(*final(token)) == ft_total_supply(*old(token)),
{
    token.internal_register_account(&account_id.parse().unwrap())
}

/// `FungibleToken::internal_withdraw`: takes `amount` from a registered account's
/// balance and from the total supply. It panics when the account is not
/// registered, when its balance is below the amount, and when the total supply is.
#[verifier::external_body]
pub(crate) fn ledger_withdraw(token: &mut FungibleToken, account_id: &str, amount: u128)
    requires
        valid_account_id(account_id@),
        ft_balances(*old(token)).contains_key(account_id@),
        ft_balances(*old(token))[account_id@] >= amount,
        ft_total_supply(*old(token)) >= amount,
    ensures
        ft_balances(*final(token)) == ft_balances(*old(token)).insert(
            account_id@,
            (ft_balances(*old(token))[account_id@] - amount) as u128,
        ),
        ft_total_supply(*final(token)) == ft_total_supply(*old(token)) - amount,
{
    token.internal_withdraw(&account_id.parse().unwrap(), amount)
}

/// `FungibleToken::internal_deposit`: adds `amount` to a registered account's
/// balance and to the total supply. It panics when the account is not registered
/// and when either sum overflows.
#[verifier::external_body]
pub(crate) fn ledger_deposit(token: &mut FungibleToken, account_id: &str, amount: u128)
    requires
        valid_account_id(account_id@),
        ft_balances(*old(token)).contains_key(account_id@),
        ft_balances(*old(token))[account_id@] + amount <= u128::MAX,
        ft_total_supply(*old(token)) + amount <= u128::MAX,
    ensures
        ft_balances(*final(token)) == ft_balances(*old(token)).insert(
            account_id@,
            (ft_balances(*old(token))[account_id@] + amount) as u128,
        ),
        ft_total_supply(*final(token)) == ft_total_supply(*old(token)) + amount,
{
    token.internal_deposit(&account_id.parse().unwrap(), amount)
}

/// `amount` moved from `from` to `to` in a map of balances: taken from the first,
/// then added to the second (the same account gets its balance back).
pub open spec fn moved(balances: Map<Seq<char>, u128>, from: Seq<char>, to: Seq<char>, amount: u128) -> Map<Seq<char>, u128> {
    let taken = balances.insert(from, (balances[from] - amount) as u128);
    taken.insert(to, (taken[to] + amount) as u128)
}

} // verus!
