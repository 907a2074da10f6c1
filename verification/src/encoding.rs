//! Text forms of ledger identifiers: hexadecimal ids and hashes, checksummed
//! addresses, event signature topics, and the ingestion clock.
//!
//! The functions marked `external_body` call into the `hex`, `ethers` and
//! `chrono` crates; their contracts are taken on trust.

use vstd::prelude::*;
use vstd::string::*;

verus! {

/// The lowercase hexadecimal digit of a value below 16.
pub open spec fn lower_hex_digit(n: int) -> char {
    if n < 10 {
        (48 + n) as char
    } else {
        (87 + n) as char
    }
}

/// The value of a hexadecimal digit of either case, `None` for any other
/// character.
pub open spec fn hex_digit_value(c: char) -> Option<int> {
    if '0' <= c <= '9' {
        Some(c as int - 48)
    } else if 'a' <= c <= 'f' {
        Some(c as int - 87)
    } else if 'A' <= c <= 'F' {
        Some(c as int - 55)
    } else {
        None
    }
}

/// Two lowercase hexadecimal digits for each byte, high nibble first.
pub open spec fn hex_text(bytes: Seq<u8>) -> Seq<char> {
    Seq::new(
        2 * bytes.len(),
        |i: int|
            lower_hex_digit(
                if i % 2 == 0 {
                    bytes[i / 2] as int / 16
                } else {
                    bytes[i / 2] as int % 16
                },
            ),
    )
}

/// An even number of hexadecimal digits of either case.
pub open spec fn is_hex_text(text: Seq<char>) -> bool {
    &&& text.len() % 2 == 0
    &&& forall|i: int| 0 <= i < text.len() ==> hex_digit_value(#[trigger] text[i]) is Some
}

/// The bytes that a hexadecimal text stands for.
pub open spec fn hex_bytes(text: Seq<char>) -> Seq<u8> {
    Seq::new(
        text.len() / 2,
        |i: int|
            (hex_digit_value(text[2 * i]).unwrap() * 16 + hex_digit_value(
                text[2 * i + 1],
            ).unwrap()) as u8,
    )
}

/// `0x` followed by the lowercase hexadecimal digits of `bytes`.
pub open spec fn prefixed_hex(bytes: Seq<u8>) -> Seq<char> {
    seq!['0', 'x'] + hex_text(bytes)
}

/// Whether `text` starts with `0x`.
pub open spec fn has_hex_prefix(text: Seq<char>) -> bool {
    text.len() >= 2 && text[0] == '0' && text[1] == 'x'
}

/// `text` without a leading `0x`, if it has one.
pub open spec fn without_hex_prefix(text: Seq<char>) -> Seq<char> {
    if has_hex_prefix(text) {
        text.skip(2)
    } else {
        text
    }
}

/// The mixed-case checksum form of a 20-byte address, as `to_checksum` of
/// `ethers` gives it for no chain id.
pub uninterp spec fn checksum_address(address: Seq<u8>) -> Seq<char>;

/// The Keccak-256 digest of a byte string, as `keccak256` of `ethers` gives
/// it.
pub uninterp spec fn keccak256_digest(bytes: Seq<u8>) -> Seq<u8>;

/// The error of `hex::decode`, carried from the call to the place where it
/// is turned into a [`ParseError`]; nothing is known of what it holds.
#[verifier::external_type_specification]
#[verifier::external_body]
pub struct ExFromHexError(hex::FromHexError);

/// Calls `hex::encode`, which writes every byte as two lowercase hexadecimal
/// digits, the high nibble first.
#[verifier::external_body]
pub(crate) fn hex_encode(bytes: &[u8]) -> (text: String)
    ensures
        text@ == hex_text(bytes@),
{
    hex::encode(bytes)
}

/// Calls `hex::decode`, which succeeds exactly on an even number of
/// hexadecimal digits of either case and then returns the byte for each pair
/// of digits.
#[verifier::external_body]
pub(crate) fn hex_decode(text: &str) -> (r: Result<Vec<u8>, hex::FromHexError>)
    ensures
        r is Ok <==> is_hex_text(text@),
        r matches Ok(bytes) ==> bytes@ == hex_bytes(text@),
{
    hex::decode(text)
}

/// Calls `ethers::core::utils::to_checksum` without a chain id. The contract
/// only names the result: the same address always has the same text.
#[verifier::external_body]
pub(crate) fn to_checksum(address: &[u8; 20]) -> (text: String)
    ensures
        text@ == checksum_address(address@),
{
    ethers::core::utils::to_checksum(&ethers::core::types::H160(*address), None)
}

/// Calls `ethers::core::utils::keccak256`. The contract only names the
/// result: the same bytes always have the same digest.
#[verifier::external_body]
pub(crate) fn keccak256(bytes: &[u8]) -> (digest: [u8; 32])
    ensures
        digest@ == keccak256_digest(bytes@),
{
    ethers::core::utils::keccak256(bytes)
}

/// Calls `chrono::Utc::now` and takes the seconds since the Unix epoch.
/// Nothing is promised of the value: it is whatever the machine's clock says.
/// `Utc::now` panics on a machine whose clock stands before 1970.
#[verifier::external_body]
pub(crate) fn unix_now() -> i64 {
    chrono::Utc::now().timestamp()
}

/// Why a text could not be read as an identifier.
#[derive(Clone, Copy, Debug, PartialEq, Eq, Structural)]
pub enum ParseError {
    /// The text, after an optional `0x`, is not an even number of
    /// hexadecimal digits.
    NotHex,
    /// The digits stand for another number of bytes than the identifier has.
    WrongLength,
}

/// The text form of an asset id or a transaction hash: `0x` and 64
/// lowercase hexadecimal digits.
pub fn hash_text(bytes: &[u8; 32]) -> (text: String)
    ensures
        text@ == prefixed_hex(bytes@),
{
    let digits = hex_encode(bytes.as_slice());
    let text = String::from_str("0x").concat(digits.as_str());
    proof {
        reveal_strlit("0x");
        assert("0x"@ =~= seq!['0', 'x']);
    }
    text
}

/// The lowercase text form of an address: `0x` and 40 hexadecimal digits.
pub fn address_text(address: &[u8; 20]) -> (text: String)
    ensures
        text@ == prefixed_hex(address@),
{
    let digits = hex_encode(address.as_slice());
    let text = String::from_str("0x").concat(digits.as_str());
    proof {
        reveal_strlit("0x");
        assert("0x"@ =~= seq!['0', 'x']);
    }
    text
}

/// The topic under which a ledger files the events of one signature: the
/// Keccak-256 digest of the signature's UTF-8 bytes.
pub fn signature_topic(signature: &str) -> (topic: [u8; 32])
    ensures
        topic@ == keccak256_digest(signature.spec_bytes()),
{
    keccak256(signature.as_bytes())
}

/// Drops a leading `0x`.
pub fn strip_hex_prefix(text: &str) -> (rest: &str)
    ensures
        rest@ == without_hex_prefix(text@),
{
    let n: usize = text.unicode_len();
    if n >= 2 && text.get_char(0) == '0' && text.get_char(1) == 'x' {
        let rest = text.substring_char(2, n);
        assert(text@.subrange(2, n as int) =~= text@.skip(2));
        rest
    } else {
        text
    }
}

/// Reads hexadecimal text, with or without a leading `0x`, as bytes.
pub fn parse_hex(text: &str) -> (r: Result<Vec<u8>, ParseError>)
    ensures
        match r {
            Ok(bytes) => is_hex_text(without_hex_prefix(text@)) && bytes@ == hex_bytes(
                without_hex_prefix(text@),
            ),
            Err(e) => !is_hex_text(without_hex_prefix(text@)) && e == ParseError::NotHex,
        },
{
    match hex_decode(strip_hex_prefix(text)) {
        Ok(bytes) => Ok(bytes),
        Err(_) => Err(ParseError::NotHex),
    }
}

/// Reads a 32-byte identifier (an asset id, a transaction hash) from
/// hexadecimal text, with or without a leading `0x`.
pub fn parse_hash(text: &str) -> (r: Result<[u8; 32], ParseError>)
    ensures
        match r {
            Ok(id) => is_hex_text(without_hex_prefix(text@)) && id@ == hex_bytes(
                without_hex_prefix(text@),
            ),
            Err(ParseError::NotHex) => !is_hex_text(without_hex_prefix(text@)),
            Err(ParseError::WrongLength) => is_hex_text(without_hex_prefix(text@)) && hex_bytes(
                without_hex_prefix(text@),
            ).len() != 32,
        },
{
    let bytes = parse_hex(text)?;
    if bytes.len() != 32 {
        return Err(ParseError::WrongLength);
    }
    let mut id: [u8; 32] = [0u8; 32];
    let mut i: usize = 0;
    while i < 32
        invariant
            i <= 32,
            bytes@.len() == 32,
            forall|j: int| 0 <= j < i ==> id@[j] == bytes@[j],
        decreases 32 - i,
    {
        id.set(i, bytes[i]);
        i += 1;
    }
    assert(id@ =~= bytes@);
    Ok(id)
}

/// Reads a 20-byte address from hexadecimal text, with or without a leading
/// `0x`.
pub fn parse_address(text: &str) -> (r: Result<[u8; 20], ParseError>)
    ensures
        match r {
            Ok(address) => is_hex_text(without_hex_prefix(text@)) && address@ == hex_bytes(
                without_hex_prefix(text@),
            ),
            Err(ParseError::NotHex) => !is_hex_text(without_hex_prefix(text@)),
            Err(ParseError::WrongLength) => is_hex_text(without_hex_prefix(text@)) && hex_bytes(
                without_hex_prefix(text@),
            ).len() != 20,
        },
{
    let bytes = parse_hex(text)?;
    if bytes.len() != 20 {
        return Err(ParseError::WrongLength);
    }
    let mut address: [u8; 20] = [0u8; 20];
    let mut i: usize = 0;
    while i < 20
        invariant
            i <= 20,
            bytes@.len() == 20,
            forall|j: int| 0 <= j < i ==> address@[j] == bytes@[j],
        decreases 20 - i,
    {
        address.set(i, bytes[i]);
        i += 1;
    }
    assert(address@ =~= bytes@);
    Ok(address)
}

} // verus!
