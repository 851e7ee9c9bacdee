use vstd::prelude::*;
use crate::accounts::valid_account_id;
use crate::text::{char_count, split_part};
use vstd::bytes::{spec_u128_from_le_bytes, spec_u128_to_le_bytes, spec_u32_to_le_bytes};

verus! {

/// The port id of the ICS-20 transfer module, `ibc::applications::transfer::PORT_ID_STR`,
/// which the `ibc` crate defines as `"transfer"`.
#[verifier::external_body]
pub(crate) fn transfer_port_id() -> (r: &'static str)
    ensures
        r@ == "transfer"@,
{
    ibc::applications::transfer::PORT_ID_STR
}

/// What `TracePath::from_str` of the `ibc` crate makes of a trace path: `None`
/// when it refuses the text, else whether the parsed path is empty. The crate
/// splits the text at each `/`; a text with no `/` that `str::trim` leaves empty
/// is the empty path; otherwise the parts must come in pairs, each a port id and
/// a channel id that `PortId::from_str` and `ChannelId::from_str` accept.
pub open spec fn trace_path_parse(path: Seq<char>) -> Option<bool> {
    let parts = char_count(path, '/') + 1;
    if parts == 1 && (forall|i: int| 0 <= i < path.len() ==> is_white_space(#[trigger] path[i])) {
        Some(true)
    } else if parts % 2 != 0 {
        None
    } else if forall|k: nat| k < parts / 2 ==> #[trigger] trace_pair_valid(path, k) {
        Some(false)
    } else {
        None
    }
}

/// The `k`-th pair of parts of a trace path is a port id and a channel id.
pub open spec fn trace_pair_valid(path: Seq<char>, k: nat) -> bool {
    port_id_valid(split_part(path, '/', 2 * k)) && channel_id_valid(split_part(path, '/', 2 * k + 1))
}

/// Parses a trace path with `ibc::applications::transfer::denom::TracePath::from_str`
/// and tells whether the parsed path is empty.
#[verifier::external_body]
pub(crate) fn parse_trace_path(path: &str) -> (r: Option<bool>)
    ensures
        r == trace_path_parse(path@),
{
    match path.parse::<ibc::applications::transfer::denom::TracePath>() {
        Ok(p) => Some(p.is_empty()),
        Err(_) => None,
    }
}

/// The borsh encoding of a `u128` with `borsh::to_vec`: its sixteen bytes, least
/// significant first, as borsh writes every integer.
#[verifier::external_body]
pub(crate) fn borsh_u128_bytes(v: u128) -> (r: Vec<u8>)
    ensures
        r@ == spec_u128_to_le_bytes(v),
{
    borsh::to_vec(&v).unwrap()
}

/// Decodes a `u128` with `borsh::from_slice`, which reads sixteen bytes, least
/// significant first, and refuses input of any other length.
#[verifier::external_body]
pub(crate) fn borsh_u128_from(bytes: &[u8]) -> (r: Option<u128>)
    ensures
        r is Some <==> bytes@.len() == 16,
        r matches Some(v) ==> v == spec_u128_from_le_bytes(bytes@),
{
    match borsh::from_slice::<u128>(bytes) {
        Ok(v) => Some(v),
        Err(_) => None,
    }
}

/// The borsh encoding of a text with `borsh::to_vec`: the number of its UTF-8
/// bytes as a `u32`, least significant byte first, then those bytes. Borsh
/// refuses a text of more than `u32::MAX` bytes.
#[verifier::external_body]
pub(crate) fn borsh_text_bytes(s: &str) -> (r: Vec<u8>)
    requires
        vstd::utf8::encode_utf8(s@).len() <= u32::MAX,
    ensures
        r@ == spec_u32_to_le_bytes(vstd::utf8::encode_utf8(s@).len() as u32) + vstd::utf8::encode_utf8(s@),
{
    borsh::to_vec(s).unwrap()
}

/// What SHA-256 makes of some bytes.
pub uninterp spec fn sha256_digest(data: Seq<u8>) -> Seq<u8>;

/// The SHA-256 digest of `data` with `near_sdk::env::sha256`, which the runtime
/// computes on chain and `sha2::Sha256::digest` computes elsewhere: thirty-two
/// bytes.
#[verifier::external_body]
pub(crate) fn sha256(data: &[u8]) -> (r: Vec<u8>)
    ensures
        r@ == sha256_digest(data@),
        r@.len() == 32,
{
    near_sdk::env::sha256(data)
}

/// What `bs58::encode` makes of some bytes: their base58 text in the alphabet of
/// Bitcoin.
pub uninterp spec fn base58_text(bytes: Seq<u8>) -> Seq<char>;

/// The JSON text of a 32-byte hash as the factories return it: `serde_json::to_string`
/// of `near_sdk::json_types::Base58CryptoHash`, which serialises the hash as the
/// string of its `bs58::encode` text. That alphabet needs no escape, so the JSON
/// text is the base58 text in double quotes.
#[verifier::external_body]
pub(crate) fn base58_hash_json(hash: &[u8]) -> (r: String)
    requires
        hash@.len() == 32,
    ensures
        r@ == seq!['"'] + base58_text(hash@) + seq!['"'],
{
    let mut bytes = [0u8; 32];
    bytes.copy_from_slice(hash);
    serde_json::to_string(&near_sdk::json_types::Base58CryptoHash::from(bytes)).unwrap()
}

/// The lower-case hexadecimal digit of a number below sixteen.
pub open spec fn hex_digit(n: int) -> char {
    if n < 10 {
        (48 + n) as char
    } else {
        (87 + n) as char
    }
}

/// The lower-case hexadecimal text of some bytes: two digits per byte, the high
/// half first.
pub open spec fn hex_text(bytes: Seq<u8>) -> Seq<char> {
    Seq::new(2 * bytes.len(), |i: int| if i % 2 == 0 { hex_digit(bytes[i / 2] as int / 16) } else { hex_digit(bytes[i / 2] as int % 16) })
}

/// `hex::encode`, which writes each byte as two lower-case hexadecimal digits,
/// the high half first.
#[verifier::external_body]
pub(crate) fn hex_encode(bytes: &[u8]) -> (r: String)
    ensures
        r@ == hex_text(bytes@),
{
    hex::encode(bytes)
}

/// Whether `tendermint::PublicKey::from_raw_ed25519` builds a key from some bytes.
pub uninterp spec fn ed25519_key_accepted(bytes: Seq<u8>) -> bool;

/// Builds the Ed25519 public key of a validator with
/// `tendermint::PublicKey::from_raw_ed25519`, which reads the bytes with
/// `ed25519_dalek::PublicKey::from_bytes`: that takes exactly thirty-two bytes,
/// which must decompress to a point of the curve. Which of those it accepts is
/// left to the name `ed25519_key_accepted`.
#[verifier::external_body]
pub(crate) fn raw_ed25519_key_accepted(bytes: &[u8]) -> (r: bool)
    ensures
        r == ed25519_key_accepted(bytes@),
        r ==> bytes@.len() == 32,
{
    tendermint::PublicKey::from_raw_ed25519(bytes).is_some()
}

/// Parses a NEAR account id with `near_sdk::AccountId::from_str`, which checks it
/// with `near_account_id::validation::validate`: at least two and at most
/// sixty-four bytes of `a`-`z`, `0`-`9`, `-`, `_` and `.`, neither starting nor
/// ending with one of the three separators, with no two of them in a row.
#[verifier::external_body]
pub(crate) fn parse_account_id(s: &str) -> (r: bool)
    ensures
        r == valid_account_id(s@),
{
    s.parse::<near_sdk::AccountId>().is_ok()
}

/// Whether `ibc::core::ics24_host::identifier::PortId::from_str` accepts a text.
pub uninterp spec fn port_id_valid(id: Seq<char>) -> bool;

/// Parses a port id with `PortId::from_str` of the `ibc` crate, which validates it
/// as an identifier of two to 128 bytes. Which texts it accepts is left to the
/// name `port_id_valid`.
#[verifier::external_body]
pub(crate) fn parse_port_id(id: &str) -> (r: bool)
    ensures
        r == port_id_valid(id@),
{
    id.parse::<ibc::core::ics24_host::identifier::PortId>().is_ok()
}

/// Whether `ibc::core::ics24_host::identifier::ChannelId::from_str` accepts a text.
pub uninterp spec fn channel_id_valid(id: Seq<char>) -> bool;

/// Parses a channel id with `ChannelId::from_str` of the `ibc` crate, which
/// validates it as an identifier of eight to 64 bytes. Which texts it accepts is
/// left to the name `channel_id_valid`.
#[verifier::external_body]
pub(crate) fn parse_channel_id(id: &str) -> (r: bool)
    ensures
        r == channel_id_valid(id@),
{
    id.parse::<ibc::core::ics24_host::identifier::ChannelId>().is_ok()
}

/// A character of the Unicode `White_Space` property, which `str::trim` removes.
pub open spec fn is_white_space(c: char) -> bool {
    ||| '\u{9}' <= c && c <= '\u{d}'
    ||| c == ' ' || c == '\u{85}' || c == '\u{a0}' || c == '\u{1680}'
    ||| '\u{2000}' <= c && c <= '\u{200a}'
    ||| c == '\u{2028}' || c == '\u{2029}' || c == '\u{202f}' || c == '\u{205f}' || c == '\u{3000}'
}

/// Parses a base denomination with `BaseDenom::from_str` of the `ibc` crate, which
/// refuses a text that `str::trim` leaves empty: one of white space only.
#[verifier::external_body]
pub(crate) fn parse_base_denom(denom: &str) -> (r: bool)
    ensures
        r == (exists|i: int| 0 <= i < denom@.len() && !is_white_space(#[trigger] denom@[i])),
{
    denom.parse::<ibc::applications::transfer::denom::BaseDenom>().is_ok()
}

/// A decimal digit.
pub open spec fn is_decimal_digit(c: char) -> bool {
    '0' <= c && c <= '9'
}

/// The value of a text of decimal digits; zero for the empty text.
pub open spec fn decimal_value(s: Seq<char>) -> nat
    decreases s.len(),
{
    if s.len() == 0 {
        0
    } else {
        decimal_value(s.drop_last()) * 10 + (s.last() as int - 48) as nat
    }
}

/// Parses an amount with `Amount::from_str` of the `ibc` crate, which reads it with
/// `U256::from_dec_str` of the `uint` crate: every byte must be a decimal digit
/// (the empty text reads as zero), and the value must stay below 2^256.
#[verifier::external_body]
pub(crate) fn parse_amount(amount: &str) -> (r: bool)
    ensures
        r == ((forall|i: int| 0 <= i < amount@.len() ==> is_decimal_digit(#[trigger] amount@[i]))
            && decimal_value(amount@) < vstd::arithmetic::power2::pow2(256)),
{
    amount.parse::<ibc::applications::transfer::denom::Amount>().is_ok()
}

/// Whether `near_sdk::env::ed25519_verify` accepts a signature of a message
/// under a public key.
pub uninterp spec fn ed25519_signature_valid(signature: Seq<u8>, message: Seq<u8>, public_key: Seq<u8>) -> bool;

/// Verifies an Ed25519 signature of a message with `near_sdk::env::ed25519_verify`,
/// which the runtime checks on chain and `ed25519_dalek` checks elsewhere; it takes
/// a signature of 64 bytes and a public key of 32. Which signatures it accepts is
/// left to the name `ed25519_signature_valid`.
#[verifier::external_body]
pub(crate) fn ed25519_verify(signature: &[u8], message: &[u8], public_key: &[u8]) -> (r: bool)
    requires
        signature@.len() == 64,
        public_key@.len() == 32,
    ensures
        r == ed25519_signature_valid(signature@, message@, public_key@),
{
    near_sdk::env::ed25519_verify(signature.try_into().unwrap(), message, public_key.try_into().unwrap())
}

} // verus!
