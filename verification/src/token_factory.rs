use vstd::prelude::*;
use vstd::string::*;
use vstd::bytes::spec_u32_to_le_bytes;
use vstd::utf8::encode_utf8;
use crate::accounts::{assert_ancestor_account, is_sub_account_of, valid_account_id};
use crate::deposit::{check_wasm_store, wasm_store_fits, wasm_store_refusal, WasmStoreError, INIT_BALANCE_FOR_WRAPPED_TOKEN_CONTRACT};
use crate::outside::{base58_hash_json, base58_text, parse_account_id, borsh_text_bytes, hex_encode, hex_text, sha256, sha256_digest};
use crate::text::{char_count, count_char, join_dot};
use crate::types::{AssetDenom, CrossChainAsset, StorageMigration};
use crate::view_map::{KeyView, ViewMap};
use crate::wrapped_token::{byte_len, same_metadata, TokenMetadata};

verus! {

/// Why the token factory refuses a call.
#[derive(Clone, Copy, Debug, PartialEq, Eq, Structural)]
pub enum TokenFactoryError {
    ContractMustBeDeployedInSubAccount,
    NotAncestorAccount,
    AssetAlreadyRegistered,
    NotEnoughDeposit,
    TooManyRetries,
    AssetNeedsToBeSetup,
    InvalidTokenContractId,
}

impl TokenFactoryError {
    /// The message that the contract fails with.
    pub fn message(&self) -> (r: &'static str)
        ensures
            r@ == self.message_text(),
    {
        match self {
            TokenFactoryError::ContractMustBeDeployedInSubAccount => "ERR_CONTRACT_MUST_BE_DEPLOYED_IN_SUB_ACCOUNT",
            TokenFactoryError::NotAncestorAccount => "ERR_ONLY_UPPER_LEVEL_ACCOUNT_CAN_CALL_THIS_METHOD",
            TokenFactoryError::AssetAlreadyRegistered => "ERR_ASSET_ALREADY_REGISTERED",
            TokenFactoryError::NotEnoughDeposit => "ERR_NOT_ENOUGH_DEPOSIT",
            TokenFactoryError::TooManyRetries => "ERR_TOO_MANY_RETRIES_IN_ASSET_ID_GENERATION",
            TokenFactoryError::AssetNeedsToBeSetup => "ERR_ASSET_NEEDS_TO_BE_SETUP",
            TokenFactoryError::InvalidTokenContractId => "ERR_INVALID_TOKEN_CONTRACT_ID",
        }
    }

    /// The message of the error, as text.
    pub open spec fn message_text(&self) -> Seq<char> {
        match self {
            TokenFactoryError::ContractMustBeDeployedInSubAccount => "ERR_CONTRACT_MUST_BE_DEPLOYED_IN_SUB_ACCOUNT"@,
            TokenFactoryError::NotAncestorAccount => "ERR_ONLY_UPPER_LEVEL_ACCOUNT_CAN_CALL_THIS_METHOD"@,
            TokenFactoryError::AssetAlreadyRegistered => "ERR_ASSET_ALREADY_REGISTERED"@,
            TokenFactoryError::NotEnoughDeposit => "ERR_NOT_ENOUGH_DEPOSIT"@,
            TokenFactoryError::TooManyRetries => "ERR_TOO_MANY_RETRIES_IN_ASSET_ID_GENERATION"@,
            TokenFactoryError::AssetNeedsToBeSetup => "ERR_ASSET_NEEDS_TO_BE_SETUP"@,
            TokenFactoryError::InvalidTokenContractId => "ERR_INVALID_TOKEN_CONTRACT_ID"@,
        }
    }
}

/// The borsh encoding of a text: its UTF-8 length as four bytes, least
/// significant first, then its UTF-8 bytes.
pub open spec fn borsh_text(s: Seq<char>) -> Seq<u8> {
    spec_u32_to_le_bytes(encode_utf8(s).len() as u32) + encode_utf8(s)
}

/// The borsh encoding of a denomination: the trace path, then the base denomination.
pub open spec fn denom_bytes(trace_path: Seq<char>, base_denom: Seq<char>) -> Seq<u8> {
    borsh_text(trace_path) + borsh_text(base_denom)
}

/// The asset id made of a digest: the first 32 hexadecimal digits, that is the
/// leftmost 128 bits.
pub open spec fn asset_id_text(digest: Seq<u8>) -> Seq<char> {
    hex_text(digest).subrange(0, 32)
}

/// The `k`-th candidate asset id of a denomination: the first is made of the
/// digest of the denomination's encoding; each later one of the digest of that
/// encoding followed by one more byte, counting from zero.
pub open spec fn candidate_id(denom: Seq<u8>, k: nat) -> Seq<char> {
    if k == 0 {
        asset_id_text(sha256_digest(denom))
    } else {
        asset_id_text(sha256_digest(denom.push((k - 1) as u8)))
    }
}

/// The `k`-th candidate is the first of the candidate ids of a denomination that
/// `assets` do not hold, among the first 255.
pub open spec fn is_first_free<M>(assets: Map<Seq<char>, M>, denom: Seq<u8>, k: nat) -> bool {
    &&& k <= 254
    &&& !assets.contains_key(candidate_id(denom, k))
    &&& forall|j: nat| j < k ==> assets.contains_key(#[trigger] candidate_id(denom, j))
}

/// The token contract of an asset: the asset id followed by the factory's account.
pub open spec fn token_contract_of(asset_id: Seq<char>, current_account_id: Seq<char>) -> Seq<char> {
    asset_id + seq!['.'] + current_account_id
}

/// The size of the borsh encoding of a text.
pub open spec fn text_size(s: Seq<char>) -> int {
    4 + byte_len(s) as int
}

/// The size of the borsh encoding of an optional text.
pub open spec fn optional_text_size(s: Option<String>) -> int {
    match s {
        Some(t) => 1 + text_size(t@),
        None => 1,
    }
}

/// The size of the borsh encoding of token metadata.
pub open spec fn metadata_size(m: TokenMetadata) -> int {
    text_size(m.spec@) + text_size(m.name@) + text_size(m.symbol@) + optional_text_size(m.icon)
        + optional_text_size(m.reference) + match m.reference_hash {
        Some(h) => 5 + h@.len(),
        None => 1,
    } + 1
}

/// The size of the borsh encoding of an asset whose id is still the placeholder
/// of 32 zeros.
pub open spec fn placeholder_asset_size(trace_path: Seq<char>, base_denom: Seq<char>, m: TokenMetadata) -> int {
    text_size(seq!['0'; 32]) + text_size(trace_path) + text_size(base_denom) + metadata_size(m)
}

/// The deposit that setting up an asset asks for: the balance of the new token
/// contract, and the storage of the asset and its id.
pub open spec fn setup_deposit(storage_byte_cost: u128, trace_path: Seq<char>, base_denom: Seq<char>, m: TokenMetadata) -> int {
    INIT_BALANCE_FOR_WRAPPED_TOKEN_CONTRACT + storage_byte_cost * (32 + placeholder_asset_size(trace_path, base_denom, m))
}

/// The asset id of a digest.
pub fn asset_id_of(digest: &[u8]) -> (r: String)
    requires
        digest@.len() >= 16,
    ensures
        r@ == asset_id_text(digest@),
{
    let hex = hex_encode(digest);
    proof {
        assert(hex@.len() == 2 * digest@.len());
    }
    String::from_str(hex.as_str().substring_char(0, 32))
}

/// Every text of the metadata, and its reference hash, has at most `u32::MAX`
/// bytes, as borsh asks.
pub open spec fn metadata_fits(m: TokenMetadata) -> bool {
    &&& byte_len(m.spec@) <= u32::MAX
    &&& byte_len(m.name@) <= u32::MAX
    &&& byte_len(m.symbol@) <= u32::MAX
    &&& (m.icon matches Some(t) ==> byte_len(t@) <= u32::MAX)
    &&& (m.reference matches Some(t) ==> byte_len(t@) <= u32::MAX)
    &&& (m.reference_hash matches Some(h) ==> h@.len() <= u32::MAX)
}

/// The number of UTF-8 bytes of a text.
pub fn text_bytes(s: &str) -> (r: u128)
    requires
        byte_len(s@) <= u32::MAX,
    ensures
        r == byte_len(s@),
{
    let n = s.len();
    proof {
        assert(s.spec_bytes() == encode_utf8(s@));
    }
    n as u128
}

fn optional_text_bytes(s: &Option<String>) -> (r: u128)
    requires
        s matches Some(t) ==> byte_len(t@) <= u32::MAX,
    ensures
        r == optional_text_size(*s),
{
    match s {
        Some(t) => 5 + text_bytes(t.as_str()),
        None => 1,
    }
}

/// The size of the borsh encoding of token metadata.
pub fn metadata_borsh_size(m: &TokenMetadata) -> (r: u128)
    requires
        metadata_fits(*m),
    ensures
        r == metadata_size(*m),
{
    let hash: u128 = match &m.reference_hash {
        Some(h) => 5 + (h.len() as u128),
        None => 1,
    };
    4 + text_bytes(m.spec.as_str()) + 4 + text_bytes(m.name.as_str()) + 4 + text_bytes(m.symbol.as_str())
        + optional_text_bytes(&m.icon) + optional_text_bytes(&m.reference) + hash + 1
}

/// Two assets hold the same values.
pub open spec fn same_asset(a: CrossChainAsset<TokenMetadata>, b: CrossChainAsset<TokenMetadata>) -> bool {
    &&& a.asset_id@ == b.asset_id@
    &&& a.asset_denom.key_view() == b.asset_denom.key_view()
    &&& same_metadata(a.metadata, b.metadata)
}

/// What setting up an asset leads to: the token contract to create, with the
/// asset's id, and the deposit that the call asked for.
pub struct AssetSetup {
    pub asset_id: String,
    pub token_contract_id: String,
    pub minimum_deposit: u128,
}

/// The factory of the token contracts that stand on NEAR for the assets of other
/// chains: it keeps each asset by its id, and the id of each denomination.
pub struct Contract {
    asset_id_mappings: ViewMap<String, CrossChainAsset<TokenMetadata>>,
    denom_to_asset_id_map: ViewMap<AssetDenom, String>,
}

impl Contract {
    pub closed spec fn wf(&self) -> bool {
        &&& self.asset_id_mappings.wf()
        &&& self.denom_to_asset_id_map.wf()
    }

    /// The assets, by id.
    pub closed spec fn assets(&self) -> Map<Seq<char>, CrossChainAsset<TokenMetadata>> {
        self.asset_id_mappings@
    }

    /// The ids of the assets in the order in which they were set up.
    pub closed spec fn asset_ids(&self) -> Seq<Seq<char>> {
        self.asset_id_mappings.key_views()
    }

    /// The asset id of each denomination.
    pub closed spec fn denoms(&self) -> Map<(Seq<char>, Seq<char>), String> {
        self.denom_to_asset_id_map@
    }

    /// A new token factory, deployed at an account with at least three parts (the
    /// contract fails to initialise anywhere else).
    pub fn new(current_account_id: &str) -> (c: Contract)
        requires
            char_count(current_account_id@, '.') >= 2,
        ensures
            c.wf(),
            c.assets() == Map::<Seq<char>, CrossChainAsset<TokenMetadata>>::empty(),
            c.denoms() == Map::<(Seq<char>, Seq<char>), String>::empty(),
    {
        Self::try_new(current_account_id).unwrap()
    }

    /// The checked form of `new`: the error with which the contract fails to initialise where `new` does not apply, else what `new` gives.
    ///
    /// A new factory; the current account must have at least three parts.
    pub fn try_new(current_account_id: &str) -> (r: Result<Contract, TokenFactoryError>)
        ensures
            r is Ok <==> char_count(current_account_id@, '.') >= 2,
            r matches Ok(c) ==> c.wf() && c.assets() == Map::<Seq<char>, CrossChainAsset<TokenMetadata>>::empty()
                && c.denoms() == Map::<(Seq<char>, Seq<char>), String>::empty(),
            r matches Err(e) ==> e == TokenFactoryError::ContractMustBeDeployedInSubAccount,
    {
        if count_char(current_account_id, '.') < 2 {
            return Err(TokenFactoryError::ContractMustBeDeployedInSubAccount);
        }
        Ok(Contract { asset_id_mappings: ViewMap::new(), denom_to_asset_id_map: ViewMap::new() })
    }

    /// No asset of the given denomination is set up yet.
    pub fn assert_asset_not_registered(&self, asset_denom: &AssetDenom) -> (r: Result<(), TokenFactoryError>)
        requires
            self.wf(),
        ensures
            r is Ok <==> forall|id: Seq<char>| #[trigger] self.assets().contains_key(id)
                ==> self.assets()[id].asset_denom.key_view() != asset_denom.key_view(),
            r is Err ==> r == Err::<(), TokenFactoryError>(TokenFactoryError::AssetAlreadyRegistered),
    {
        proof {
            self.asset_id_mappings.lemma_keys();
        }
        let n = self.asset_id_mappings.len();
        let mut i: usize = 0;
        while i < n
            invariant
                self.wf(),
                n == self.asset_ids().len(),
                i <= n,
                forall|k: Seq<char>| #[trigger] self.assets().contains_key(k) <==> self.asset_ids().contains(k),
                forall|j: int| 0 <= j < i ==> self.assets()[#[trigger] self.asset_ids()[j]].asset_denom.key_view() != asset_denom.key_view(),
            decreases n - i,
        {
            let asset = self.asset_id_mappings.value_at(i);
            if asset.asset_denom.same_key_as(asset_denom) {
                proof {
                    assert(self.asset_ids().contains(self.asset_ids()[i as int]));
                    assert(self.assets().contains_key(self.asset_ids()[i as int]));
                    assert(self.assets()[self.asset_ids()[i as int]].asset_denom.key_view() == asset_denom.key_view());
                }
                return Err(TokenFactoryError::AssetAlreadyRegistered);
            }
            i = i + 1;
        }
        proof {
            assert forall|id: Seq<char>| #[trigger] self.assets().contains_key(id)
                implies self.assets()[id].asset_denom.key_view() != asset_denom.key_view() by {
                assert(self.asset_ids().contains(id));
                let j = choose|j: int| 0 <= j < self.asset_ids().len() && self.asset_ids()[j] == id;
            }
        }
        Ok(())
    }

    /// The asset id for a denomination whose encoding is `denom`: the first
    /// candidate that no asset has yet, trying at most 255 of them.
    fn generate_asset_id(&self, denom: &Vec<u8>) -> (r: Option<String>)
        requires
            self.wf(),
        ensures
            r matches Some(id) ==> exists|k: nat| #[trigger] is_first_free(self.assets(), denom@, k) && id@ == candidate_id(denom@, k),
            r is None ==> forall|j: nat| j <= 254 ==> self.assets().contains_key(#[trigger] candidate_id(denom@, j)),
    {
        let digest = sha256(denom.as_slice());
        let mut asset_id = asset_id_of(digest.as_slice());
        let mut retry: u8 = 0;
        while self.asset_id_mappings.contains_key(&asset_id)
            invariant
                self.wf(),
                retry <= 254,
                asset_id@ == candidate_id(denom@, retry as nat),
                forall|j: nat| j < retry ==> self.assets().contains_key(#[trigger] candidate_id(denom@, j)),
            decreases 255 - retry,
        {
            let mut bytes = denom.clone();
            bytes.push(retry);
            proof {
                assert(bytes@ == denom@.push(retry));
            }
            let digest = sha256(bytes.as_slice());
            asset_id = asset_id_of(digest.as_slice());
            retry = retry + 1;
            if retry >= 255 {
                proof {
                    assert forall|j: nat| j <= 254 implies self.assets().contains_key(#[trigger] candidate_id(denom@, j)) by {
                        if j == 254 {
                            assert(candidate_id(denom@, 254) == candidate_id(denom@, (retry - 1) as nat));
                        }
                    }
                }
                return None;
            }
        }
        proof {
            assert(is_first_free(self.assets(), denom@, retry as nat));
        }
        Some(asset_id)
    }

    /// The checked form of `setup_asset`: the error with which the contract fails on a call that `setup_asset` does not take, else what `setup_asset` does.
    ///
    /// Sets up the asset of a denomination; called by an upper-level account, the
    /// IBC implementation, with a deposit that covers the new token contract and
    /// the storage. Records the asset under a new id and returns the token contract
    /// to create: the asset id followed by the current account.
    pub fn try_setup_asset(
        &mut self,
        current_account_id: &str,
        predecessor_account_id: &str,
        attached_deposit: u128,
        storage_byte_cost: u128,
        trace_path: String,
        base_denom: String,
        metadata: TokenMetadata,
    ) -> (r: Result<AssetSetup, TokenFactoryError>)
        requires
            old(self).wf(),
            setup_deposit(storage_byte_cost, trace_path@, base_denom@, metadata) <= u128::MAX,
            byte_len(trace_path@) <= u32::MAX,
            byte_len(base_denom@) <= u32::MAX,
            metadata_fits(metadata),
        ensures
            final(self).wf(),
            !is_sub_account_of(current_account_id@, predecessor_account_id@)
                ==> r == Err::<AssetSetup, TokenFactoryError>(TokenFactoryError::NotAncestorAccount),
            is_sub_account_of(current_account_id@, predecessor_account_id@)
                && (exists|id: Seq<char>| #[trigger] old(self).assets().contains_key(id)
                    && old(self).assets()[id].asset_denom.key_view() == (trace_path@, base_denom@))
                ==> r == Err::<AssetSetup, TokenFactoryError>(TokenFactoryError::AssetAlreadyRegistered),
            r matches Err(TokenFactoryError::NotEnoughDeposit) ==> attached_deposit < setup_deposit(storage_byte_cost, trace_path@, base_denom@, metadata),
            r matches Err(TokenFactoryError::TooManyRetries) ==> forall|j: nat| j <= 254
                ==> old(self).assets().contains_key(#[trigger] candidate_id(denom_bytes(trace_path@, base_denom@), j)),
            r matches Err(TokenFactoryError::InvalidTokenContractId) ==> exists|k: nat|
                #[trigger] is_first_free(old(self).assets(), denom_bytes(trace_path@, base_denom@), k)
                && !valid_account_id(token_contract_of(candidate_id(denom_bytes(trace_path@, base_denom@), k), current_account_id@)),
            r is Ok <==> is_sub_account_of(current_account_id@, predecessor_account_id@)
                && (forall|id: Seq<char>| #[trigger] old(self).assets().contains_key(id)
                    ==> old(self).assets()[id].asset_denom.key_view() != (trace_path@, base_denom@))
                && attached_deposit >= setup_deposit(storage_byte_cost, trace_path@, base_denom@, metadata)
                && !(forall|j: nat| j <= 254
                    ==> old(self).assets().contains_key(#[trigger] candidate_id(denom_bytes(trace_path@, base_denom@), j)))
                && (forall|k: nat| #[trigger] is_first_free(old(self).assets(), denom_bytes(trace_path@, base_denom@), k)
                    ==> valid_account_id(token_contract_of(candidate_id(denom_bytes(trace_path@, base_denom@), k), current_account_id@))),
            r is Err ==> final(self).assets() == old(self).assets() && final(self).denoms() == old(self).denoms(),
            r matches Ok(s) ==> {
                &&& exists|k: nat| #[trigger] is_first_free(old(self).assets(), denom_bytes(trace_path@, base_denom@), k)
                    && s.asset_id@ == candidate_id(denom_bytes(trace_path@, base_denom@), k)
                &&& s.token_contract_id@ == token_contract_of(s.asset_id@, current_account_id@)
                &&& valid_account_id(s.token_contract_id@)
                &&& s.minimum_deposit == setup_deposit(storage_byte_cost, trace_path@, base_denom@, metadata)
                &&& final(self).assets().dom() == old(self).assets().dom().insert(s.asset_id@)
                &&& final(self).assets()[s.asset_id@].asset_id@ == s.asset_id@
                &&& final(self).assets()[s.asset_id@].asset_denom.key_view() == (trace_path@, base_denom@)
                &&& same_metadata(final(self).assets()[s.asset_id@].metadata, metadata)
                &&& forall|id: Seq<char>| #[trigger] old(self).assets().contains_key(id) ==> final(self).assets()[id] == old(self).assets()[id]
                &&& final(self).denoms().dom() == old(self).denoms().dom().insert((trace_path@, base_denom@))
                &&& final(self).denoms()[(trace_path@, base_denom@)]@ == s.asset_id@
                &&& forall|d| #[trigger] old(self).denoms().contains_key(d) && d != (trace_path@, base_denom@)
                    ==> final(self).denoms()[d] == old(self).denoms()[d]
            },
    {
        match assert_ancestor_account(current_account_id, predecessor_account_id) {
            Ok(()) => {},
            Err(_) => {
                proof {
                    assert(!is_sub_account_of(current_account_id@, predecessor_account_id@));
                }
                return Err(TokenFactoryError::NotAncestorAccount);
            },
        }
        let ghost tp = trace_path@;
        let ghost bd = base_denom@;
        let asset_denom = AssetDenom { trace_path, base_denom };
        match self.assert_asset_not_registered(&asset_denom) {
            Ok(()) => {},
            Err(e) => { return Err(e); },
        }
        let size: u128 = 36 + 4 + text_bytes(asset_denom.trace_path.as_str()) + 4 + text_bytes(asset_denom.base_denom.as_str())
            + metadata_borsh_size(&metadata);
        proof {
            assert(text_size(seq!['0'; 32]) == 36) by {
                assert(vstd::utf8::is_ascii_chars(seq!['0'; 32]));
                vstd::utf8::is_ascii_chars_encode_utf8(seq!['0'; 32]);
            }
            assert(size == placeholder_asset_size(asset_denom.trace_path@, asset_denom.base_denom@, metadata));
            assert(storage_byte_cost * (32 + size) <= u128::MAX) by (nonlinear_arith)
                requires
                    INIT_BALANCE_FOR_WRAPPED_TOKEN_CONTRACT + storage_byte_cost * (32 + size) <= u128::MAX;
        }
        let minimum_deposit = INIT_BALANCE_FOR_WRAPPED_TOKEN_CONTRACT + storage_byte_cost * (32 + size);
        if attached_deposit < minimum_deposit {
            return Err(TokenFactoryError::NotEnoughDeposit);
        }
        let mut denom = borsh_text_bytes(asset_denom.trace_path.as_str());
        let mut tail = borsh_text_bytes(asset_denom.base_denom.as_str());
        denom.append(&mut tail);
        proof {
            assert(denom@ == denom_bytes(tp, bd));
        }
        let asset_id = match self.generate_asset_id(&denom) {
            Some(id) => id,
            None => { return Err(TokenFactoryError::TooManyRetries); },
        };
        let ghost k = choose|k: nat| #[trigger] is_first_free(self.assets(), denom@, k) && asset_id@ == candidate_id(denom@, k);
        proof {
            assert(!self.assets().contains_key(candidate_id(denom_bytes(tp, bd), k)));
            assert forall|k2: nat| #[trigger] is_first_free(self.assets(), denom@, k2) implies k2 == k by {
                if k2 < k {
                    assert(self.assets().contains_key(candidate_id(denom@, k2)));
                } else if k < k2 {
                    assert(self.assets().contains_key(candidate_id(denom@, k)));
                }
            }
        }
        let token_contract_id = join_dot(asset_id.as_str(), current_account_id);
        proof {
            assert(token_contract_id@ =~= token_contract_of(asset_id@, current_account_id@));
        }
        if !parse_account_id(token_contract_id.as_str()) {
            return Err(TokenFactoryError::InvalidTokenContractId);
        }
        let cross_chain_asset = CrossChainAsset {
            asset_id: asset_id.clone(),
            asset_denom: asset_denom.duplicate(),
            metadata,
        };
        self.asset_id_mappings.insert(asset_id.clone(), cross_chain_asset);
        self.denom_to_asset_id_map.insert(asset_denom, asset_id.clone());
        Ok(AssetSetup { asset_id, token_contract_id, minimum_deposit })
    }

    /// The checked form of `mint_asset`: the error with which the contract fails on a call that `mint_asset` does not take, else what `mint_asset` does.
    ///
    /// The token contract that mints the asset of a denomination; called by an
    /// upper-level account, the IBC implementation.
    pub fn try_mint_asset(
        &self,
        current_account_id: &str,
        predecessor_account_id: &str,
        trace_path: String,
        base_denom: String,
    ) -> (r: Result<String, TokenFactoryError>)
        requires
            self.wf(),
        ensures
            !is_sub_account_of(current_account_id@, predecessor_account_id@)
                ==> r == Err::<String, TokenFactoryError>(TokenFactoryError::NotAncestorAccount),
            is_sub_account_of(current_account_id@, predecessor_account_id@) && !self.denoms().contains_key((trace_path@, base_denom@))
                ==> r == Err::<String, TokenFactoryError>(TokenFactoryError::AssetNeedsToBeSetup),
            is_sub_account_of(current_account_id@, predecessor_account_id@) && self.denoms().contains_key((trace_path@, base_denom@))
                && !valid_account_id(token_contract_of(self.denoms()[(trace_path@, base_denom@)]@, current_account_id@))
                ==> r == Err::<String, TokenFactoryError>(TokenFactoryError::InvalidTokenContractId),
            r is Ok <==> is_sub_account_of(current_account_id@, predecessor_account_id@) && self.denoms().contains_key((trace_path@, base_denom@))
                && valid_account_id(token_contract_of(self.denoms()[(trace_path@, base_denom@)]@, current_account_id@)),
            r matches Ok(c) ==> c@ == token_contract_of(self.denoms()[(trace_path@, base_denom@)]@, current_account_id@),
    {
        match assert_ancestor_account(current_account_id, predecessor_account_id) {
            Ok(()) => {},
            Err(_) => { return Err(TokenFactoryError::NotAncestorAccount); },
        }
        let asset_denom = AssetDenom { trace_path, base_denom };
        match self.denom_to_asset_id_map.get(&asset_denom) {
            Some(asset_id) => {
                let token_contract_id = join_dot(asset_id.as_str(), current_account_id);
                proof {
                    assert(token_contract_id@ =~= token_contract_of(asset_id@, current_account_id@));
                }
                if parse_account_id(token_contract_id.as_str()) {
                    Ok(token_contract_id)
                } else {
                    Err(TokenFactoryError::InvalidTokenContractId)
                }
            },
            None => Err(TokenFactoryError::AssetNeedsToBeSetup),
        }
    }

    /// Sets up the asset of a denomination, for a call that `try_setup_asset`
    /// accepts (the contract fails on any other): records the asset under the
    /// first free candidate id and returns the token contract to create, the
    /// asset id followed by the current account.
    pub fn setup_asset(
        &mut self,
        current_account_id: &str,
        predecessor_account_id: &str,
        attached_deposit: u128,
        storage_byte_cost: u128,
        trace_path: String,
        base_denom: String,
        metadata: TokenMetadata,
    ) -> (s: AssetSetup)
        requires
            old(self).wf(),
            setup_deposit(storage_byte_cost, trace_path@, base_denom@, metadata) <= u128::MAX,
            byte_len(trace_path@) <= u32::MAX,
            byte_len(base_denom@) <= u32::MAX,
            metadata_fits(metadata),
            is_sub_account_of(current_account_id@, predecessor_account_id@),
            forall|id: Seq<char>| #[trigger] old(self).assets().contains_key(id)
                ==> old(self).assets()[id].asset_denom.key_view() != (trace_path@, base_denom@),
            attached_deposit >= setup_deposit(storage_byte_cost, trace_path@, base_denom@, metadata),
            !(forall|j: nat| j <= 254
                ==> old(self).assets().contains_key(#[trigger] candidate_id(denom_bytes(trace_path@, base_denom@), j))),
            forall|k: nat| #[trigger] is_first_free(old(self).assets(), denom_bytes(trace_path@, base_denom@), k)
                ==> valid_account_id(token_contract_of(candidate_id(denom_bytes(trace_path@, base_denom@), k), current_account_id@)),
        ensures
            final(self).wf(),
            exists|k: nat| #[trigger] is_first_free(old(self).assets(), denom_bytes(trace_path@, base_denom@), k)
                && s.asset_id@ == candidate_id(denom_bytes(trace_path@, base_denom@), k),
            s.token_contract_id@ == token_contract_of(s.asset_id@, current_account_id@),
            valid_account_id(s.token_contract_id@),
            s.minimum_deposit == setup_deposit(storage_byte_cost, trace_path@, base_denom@, metadata),
            final(self).assets().dom() == old(self).assets().dom().insert(s.asset_id@),
            final(self).assets()[s.asset_id@].asset_id@ == s.asset_id@,
            final(self).assets()[s.asset_id@].asset_denom.key_view() == (trace_path@, base_denom@),
            same_metadata(final(self).assets()[s.asset_id@].metadata, metadata),
            forall|id: Seq<char>| #[trigger] old(self).assets().contains_key(id) ==> final(self).assets()[id] == old(self).assets()[id],
            final(self).denoms().dom() == old(self).denoms().dom().insert((trace_path@, base_denom@)),
            final(self).denoms()[(trace_path@, base_denom@)]@ == s.asset_id@,
            forall|d| #[trigger] old(self).denoms().contains_key(d) && d != (trace_path@, base_denom@)
                ==> final(self).denoms()[d] == old(self).denoms()[d],
    {
        self.try_setup_asset(current_account_id, predecessor_account_id, attached_deposit, storage_byte_cost, trace_path, base_denom, metadata).unwrap()
    }

    /// The token contract that mints the asset of a denomination, for a call that
    /// `try_mint_asset` accepts (the contract fails on any other).
    pub fn mint_asset(
        &self,
        current_account_id: &str,
        predecessor_account_id: &str,
        trace_path: String,
        base_denom: String,
    ) -> (r: String)
        requires
            self.wf(),
            is_sub_account_of(current_account_id@, predecessor_account_id@),
            self.denoms().contains_key((trace_path@, base_denom@)),
            valid_account_id(token_contract_of(self.denoms()[(trace_path@, base_denom@)]@, current_account_id@)),
        ensures
            r@ == token_contract_of(self.denoms()[(trace_path@, base_denom@)]@, current_account_id@),
    {
        self.try_mint_asset(current_account_id, predecessor_account_id, trace_path, base_denom).unwrap()
    }

    /// All assets, in the order in which they were set up.
    pub fn get_cross_chain_assets(&self) -> (r: Vec<CrossChainAsset<TokenMetadata>>)
        requires
            self.wf(),
        ensures
            r@.len() == self.asset_ids().len(),
            forall|i: int| 0 <= i < r@.len() ==> same_asset(#[trigger] r@[i], self.assets()[self.asset_ids()[i]]),
    {
        let n = self.asset_id_mappings.len();
        let mut r: Vec<CrossChainAsset<TokenMetadata>> = Vec::new();
        let mut i: usize = 0;
        while i < n
            invariant
                self.wf(),
                n == self.asset_ids().len(),
                i <= n,
                r@.len() == i,
                forall|j: int| 0 <= j < i ==> same_asset(#[trigger] r@[j], self.assets()[self.asset_ids()[j]]),
            decreases n - i,
        {
            let asset = self.asset_id_mappings.value_at(i);
            r.push(CrossChainAsset {
                asset_id: asset.asset_id.clone(),
                asset_denom: asset.asset_denom.duplicate(),
                metadata: asset.metadata.copied(),
            });
            i = i + 1;
        }
        r
    }
}

/// The state of the factory as its version before the map from denomination to
/// asset id stored it.
pub struct OldContract {
    pub asset_id_mappings: ViewMap<String, CrossChainAsset<TokenMetadata>>,
}

impl StorageMigration for Contract {
    type Old = OldContract;

    open spec fn old_wf(old: &OldContract) -> bool {
        old.asset_id_mappings.wf()
    }

    /// Keeps the assets and fills the map from denomination to asset id from them.
    fn migrate_state(old: OldContract) -> (r: Contract)
        ensures
            r.wf(),
            r.assets() == old.asset_id_mappings@,
            forall|id: Seq<char>| #[trigger] old.asset_id_mappings@.contains_key(id)
                ==> r.denoms().contains_key(old.asset_id_mappings@[id].asset_denom.key_view()),
            forall|d: (Seq<char>, Seq<char>)| #[trigger] r.denoms().contains_key(d)
                ==> old.asset_id_mappings@.contains_key(r.denoms()[d]@)
                    && old.asset_id_mappings@[r.denoms()[d]@].asset_denom.key_view() == d,
    {
        let OldContract { asset_id_mappings } = old;
        let mut denoms: ViewMap<AssetDenom, String> = ViewMap::new();
        proof {
            asset_id_mappings.lemma_keys();
        }
        let n = asset_id_mappings.len();
        let mut i: usize = 0;
        while i < n
            invariant
                asset_id_mappings.wf(),
                denoms.wf(),
                n == asset_id_mappings.key_views().len(),
                i <= n,
                forall|t: Seq<char>| #[trigger] asset_id_mappings@.contains_key(t) <==> asset_id_mappings.key_views().contains(t),
                forall|j: int| 0 <= j < i ==> denoms@.contains_key(asset_id_mappings@[#[trigger] asset_id_mappings.key_views()[j]].asset_denom.key_view()),
                forall|d: (Seq<char>, Seq<char>)| #[trigger] denoms@.contains_key(d)
                    ==> asset_id_mappings@.contains_key(denoms@[d]@) && asset_id_mappings@[denoms@[d]@].asset_denom.key_view() == d,
            decreases n - i,
        {
            let id = asset_id_mappings.key_at(i);
            let denom = asset_id_mappings.value_at(i).asset_denom.duplicate();
            proof {
                assert(asset_id_mappings.key_views().contains(asset_id_mappings.key_views()[i as int]));
            }
            denoms.insert(denom, id);
            i = i + 1;
        }
        proof {
            assert forall|t: Seq<char>| #[trigger] asset_id_mappings@.contains_key(t)
                implies denoms@.contains_key(asset_id_mappings@[t].asset_denom.key_view()) by {
                assert(asset_id_mappings.key_views().contains(t));
                let j = choose|j: int| 0 <= j < asset_id_mappings.key_views().len() && asset_id_mappings.key_views()[j] == t;
            }
        }
        Contract { asset_id_mappings, denom_to_asset_id_map: denoms }
    }
}

/// The id of a set-up asset is new: no asset had it before, and it is the only
/// first free candidate of its denomination.
pub proof fn law_setup_asset_id_is_fresh(assets: Map<Seq<char>, CrossChainAsset<TokenMetadata>>, denom: Seq<u8>, k: nat, k2: nat)
    requires
        is_first_free(assets, denom, k),
        is_first_free(assets, denom, k2),
    ensures
        !assets.contains_key(candidate_id(denom, k)),
        k == k2,
{
    if k2 < k {
        assert(assets.contains_key(candidate_id(denom, k2)));
    } else if k < k2 {
        assert(assets.contains_key(candidate_id(denom, k)));
    }
}

/// A denomination is set up once: after its setup the factory holds an asset of
/// it, so that setting it up again is refused as already registered.
pub proof fn law_setup_twice_refused(c1: Contract, s: AssetSetup, trace_path: Seq<char>, base_denom: Seq<char>)
    requires
        c1.assets().contains_key(s.asset_id@),
        c1.assets()[s.asset_id@].asset_denom.key_view() == (trace_path, base_denom),
    ensures
        exists|id: Seq<char>| #[trigger] c1.assets().contains_key(id) && c1.assets()[id].asset_denom.key_view() == (trace_path, base_denom),
{
}

/// Once an asset is set up, minting its denomination is accepted and goes to the
/// token contract that was created for it.
pub proof fn law_mint_after_setup(c1: Contract, s: AssetSetup, trace_path: Seq<char>, base_denom: Seq<char>, current_account_id: Seq<char>)
    requires
        c1.denoms().contains_key((trace_path, base_denom)),
        c1.denoms()[(trace_path, base_denom)]@ == s.asset_id@,
        s.token_contract_id@ == token_contract_of(s.asset_id@, current_account_id),
        valid_account_id(s.token_contract_id@),
    ensures
        valid_account_id(token_contract_of(c1.denoms()[(trace_path, base_denom)]@, current_account_id)),
        token_contract_of(c1.denoms()[(trace_path, base_denom)]@, current_account_id) == s.token_contract_id@,
{
}

/// Stores a new code of the token contract: only the factory's own account may, and
/// when the code is longer than the stored one, of `current_len` bytes, the account
/// balance must cover the account's storage after the write. Returns the JSON text
/// of the SHA-256 digest of the code in base58, which the factory answers with.
pub fn store_wasm_of_token_contract(
    predecessor_account_id: &str,
    current_account_id: &str,
    input: &[u8],
    current_len: u64,
    storage_usage: u64,
    storage_byte_cost: u128,
    account_balance: u128,
) -> (r: Result<String, WasmStoreError>)
    requires
        wasm_store_fits(input@.len(), current_len, storage_usage, storage_byte_cost),
    ensures
        match wasm_store_refusal(predecessor_account_id@, current_account_id@, input@.len(), current_len,
            storage_usage, storage_byte_cost, account_balance) {
            Some(e) => r == Err::<String, WasmStoreError>(e),
            None => r matches Ok(json) && json@ == seq!['"'] + base58_text(sha256_digest(input@)) + seq!['"'],
        },
{
    check_wasm_store(
        predecessor_account_id,
        current_account_id,
        input.len() as u64,
        current_len,
        storage_usage,
        storage_byte_cost,
        account_balance,
    )?;
    let digest = sha256(input);
    Ok(base58_hash_json(digest.as_slice()))
}

} // verus!
