//! Signed approvals: the key as its text is read, the typed message that
//! permits the router to pull the given token, and its signature.

use vstd::prelude::*;
use vstd::slice::slice_to_vec;
use vstd::utf8::encode_utf8;
use sha3::Digest;
use crate::bytes::{append, append_be, append_left_padded, be_bytes, left_padded, ADDRESS_LEN, WORD_LEN};
use crate::errors::{EncodingError, ErrorView};
use crate::models::{PermitTerms, Solution};

verus! {

/// Width in bytes of a private key.
pub const KEY_LEN: usize = 32;

/// The value of a hexadecimal digit, or nothing for another byte.
pub open spec fn hex_value(c: u8) -> Option<u8> {
    if 0x30 <= c <= 0x39 {
        Some((c - 0x30) as u8)
    } else if 0x61 <= c <= 0x66 {
        Some((c - 0x61 + 10) as u8)
    } else if 0x41 <= c <= 0x46 {
        Some((c - 0x41 + 10) as u8)
    } else {
        None
    }
}

/// The text without a leading `0x`.
pub open spec fn hex_digits(text: Seq<u8>) -> Seq<u8> {
    if text.len() >= 2 && text[0] == 0x30 && text[1] == 0x78 {
        text.subrange(2, text.len() as int)
    } else {
        text
    }
}

/// The text is a key: sixty-four hexadecimal digits, after `0x` or not.
pub open spec fn key_text_valid(text: Seq<u8>) -> bool {
    let digits = hex_digits(text);
    &&& digits.len() == 2 * KEY_LEN
    &&& forall|i: int| 0 <= i < digits.len() ==> hex_value(#[trigger] digits[i]) is Some
}

/// The bytes that a key's text spells, two digits a byte.
pub open spec fn key_bytes(text: Seq<u8>) -> Seq<u8> {
    let digits = hex_digits(text);
    Seq::new(
        KEY_LEN as nat,
        |i: int| (hex_value(digits[2 * i]).unwrap() * 16 + hex_value(digits[2 * i + 1]).unwrap()) as u8,
    )
}

fn digit_value(c: u8) -> (value: Option<u8>)
    ensures
        value == hex_value(c),
{
    if 0x30 <= c && c <= 0x39 {
        Some(c - 0x30)
    } else if 0x61 <= c && c <= 0x66 {
        Some(c - 0x61 + 10)
    } else if 0x41 <= c && c <= 0x46 {
        Some(c - 0x41 + 10)
    } else {
        None
    }
}

/// Reads a private key from its text.
pub fn parse_private_key(text: &str) -> (key: Result<Vec<u8>, EncodingError>)
    ensures
        match key {
            Ok(k) => key_text_valid(vstd::utf8::encode_utf8(text@)) && k@ == key_bytes(vstd::utf8::encode_utf8(text@)),
            Err(e) => !key_text_valid(vstd::utf8::encode_utf8(text@)) && e@ == ErrorView::SigningError,
        },
{
    let bytes = text.as_bytes();
    let start: usize = if bytes.len() >= 2 && bytes[0] == 0x30 && bytes[1] == 0x78 {
        2
    } else {
        0
    };
    let ghost digits = hex_digits(bytes@);
    if bytes.len() - start != 2 * KEY_LEN {
        return Err(EncodingError::SigningError);
    }
    let mut key: Vec<u8> = Vec::new();
    let mut i: usize = 0;
    while i < KEY_LEN
        invariant
            i <= KEY_LEN,
            bytes@ == vstd::utf8::encode_utf8(text@),
            digits == hex_digits(bytes@),
            digits.len() == 2 * KEY_LEN,
            bytes@.len() == start + 2 * KEY_LEN,
            forall|k: int| 0 <= k < digits.len() ==> digits[k] == bytes@[start + k],
            forall|k: int| 0 <= k < 2 * i ==> hex_value(#[trigger] digits[k]) is Some,
            key@.len() == i,
            forall|k: int| 0 <= k < i ==> #[trigger] key@[k] == key_bytes(bytes@)[k],
        decreases KEY_LEN - i,
    {
        let high = match digit_value(bytes[start + 2 * i]) {
            Some(v) => v,
            None => {
                assert(hex_value(digits[2 * i]) is None);
                return Err(EncodingError::SigningError);
            },
        };
        let low = match digit_value(bytes[start + 2 * i + 1]) {
            Some(v) => v,
            None => {
                assert(hex_value(digits[2 * i + 1]) is None);
                return Err(EncodingError::SigningError);
            },
        };
        key.push(high * 16 + low);
        i += 1;
    }
    assert(key@ =~= key_bytes(bytes@));
    Ok(key)
}

/// Width in bytes of a hash.
pub const HASH_LEN: usize = 32;

/// Width in bytes of the two scalars of a signature.
pub const SCALARS_LEN: usize = 64;

/// Width in bytes of a signature: two 256-bit scalars and the recovery byte.
pub const SIGNATURE_LEN: usize = 65;

/// What is added to a recovery id to give the recovery byte.
pub const RECOVERY_BASE: u8 = 27;

/// The Keccak-256 hash of a byte string.
pub uninterp spec fn keccak256_of(data: Seq<u8>) -> Seq<u8>;

/// The two scalars and the recovery id of the signature that a secp256k1 key
/// gives for a hash, or nothing where the key or the hash is refused.
pub uninterp spec fn signature_of(key: Seq<u8>, hash: Seq<u8>) -> Option<(Seq<u8>, u8)>;

/// Calls `Keccak256::digest` of sha3. Trusted: the result is the Keccak-256
/// hash of the bytes, which is thirty-two bytes long.
#[verifier::external_body]
fn keccak256(data: &Vec<u8>) -> (hash: Vec<u8>)
    ensures
        hash@ == keccak256_of(data@),
        hash@.len() == HASH_LEN,
{
    sha3::Keccak256::digest(data.as_slice()).to_vec()
}

/// Calls `SigningKey::sign_prehash_recoverable` of k256 on the key that
/// `SigningKey::from_slice` makes of the bytes. Trusted: the signature is a
/// function of the key and the hash (the nonce is derived from them), it comes
/// as sixty-four bytes with a recovery id below four, and a key or a hash
/// that is refused gives nothing.
#[verifier::external_body]
fn sign_prehash(key: &Vec<u8>, hash: &Vec<u8>) -> (signed: Option<(Vec<u8>, u8)>)
    ensures
        match signed {
            Some((scalars, id)) => signature_of(key@, hash@) == Some((scalars@, id)) && scalars@.len()
                == SCALARS_LEN && id < 4,
            None => signature_of(key@, hash@) is None,
        },
{
    let signing_key = k256::ecdsa::SigningKey::from_slice(key.as_slice()).ok()?;
    let (signature, recovery) = signing_key.sign_prehash_recoverable(hash.as_slice()).ok()?;
    Some((signature.to_bytes().to_vec(), recovery.to_byte()))
}

/// One word that holds a number.
pub open spec fn word(n: nat) -> Seq<u8> {
    be_bytes(n, WORD_LEN as nat)
}

/// One word that holds an address.
pub open spec fn address_word(a: Seq<u8>) -> Seq<u8> {
    left_padded(a, WORD_LEN as nat)
}

/// The hash of a text's bytes.
pub open spec fn text_hash(text: Seq<char>) -> Seq<u8> {
    keccak256_of(encode_utf8(text))
}

/// The address of the contract that checks signed approvals.
pub open spec fn permit2_address() -> Seq<u8> {
    seq![
        0x00u8, 0x00u8, 0x00u8, 0x00u8, 0x00u8, 0x22u8, 0xd4u8, 0x73u8, 0x03u8, 0x0fu8,
        0x11u8, 0x6du8, 0xdeu8, 0xe9u8, 0xf6u8, 0xb4u8, 0x3au8, 0xc7u8, 0x8bu8, 0xa3u8,
    ]
}

/// The hash that sets approvals for one chain apart from those for another.
pub open spec fn domain_hash(chain_id: u64) -> Seq<u8> {
    keccak256_of(
        text_hash("EIP712Domain(string name,uint256 chainId,address verifyingContract)"@) + text_hash(
            "Permit2"@,
        ) + word(chain_id as nat) + address_word(permit2_address()),
    )
}

/// The hash of what is permitted: token, amount, expiration and nonce.
pub open spec fn details_hash(solution: &Solution, terms: PermitTerms) -> Seq<u8> {
    keccak256_of(
        text_hash("PermitDetails(address token,uint160 amount,uint48 expiration,uint48 nonce)"@)
            + address_word(solution.given_token@) + word(solution.given_amount as nat) + word(
            terms.expiration as nat,
        ) + word(terms.nonce as nat),
    )
}

/// The hash of the permission: what is permitted, to whom, and until when
/// the signature is accepted. The spender is the router.
pub open spec fn permit_hash(solution: &Solution, terms: PermitTerms) -> Seq<u8> {
    keccak256_of(
        text_hash(
            "PermitSingle(PermitDetails details,address spender,uint256 sigDeadline)PermitDetails(address token,uint160 amount,uint48 expiration,uint48 nonce)"@,
        ) + details_hash(solution, terms) + address_word(solution.router_address@) + word(
            terms.sig_deadline as nat,
        ),
    )
}

/// The hash that is signed: a two-byte prefix, the domain and the permission.
pub open spec fn permit_digest_of(solution: &Solution, terms: PermitTerms, chain_id: u64) -> Seq<u8> {
    keccak256_of(seq![0x19u8, 0x01u8] + domain_hash(chain_id) + permit_hash(solution, terms))
}

/// A signature as it stands in a call: the two scalars, then the recovery
/// byte.
pub open spec fn signature_bytes(scalars: Seq<u8>, id: u8) -> Seq<u8> {
    scalars.push((RECOVERY_BASE + id) as u8)
}

/// The signature of `key` over the solution's permission as it stands in a
/// call, or nothing where the signing is refused.
pub open spec fn approval_signature(key: Seq<u8>, solution: &Solution, terms: PermitTerms, chain_id: u64) -> Option<
    Seq<u8>,
> {
    match signature_of(key, permit_digest_of(solution, terms, chain_id)) {
        Some((scalars, id)) => Some(signature_bytes(scalars, id)),
        None => None,
    }
}

fn hash_text(text: &str) -> (hash: Vec<u8>)
    ensures
        hash@ == text_hash(text@),
        hash@.len() == HASH_LEN,
{
    let bytes = slice_to_vec(text.as_bytes());
    keccak256(&bytes)
}

fn permit2_address_bytes() -> (address: Vec<u8>)
    ensures
        address@ == permit2_address(),
{
    let address: Vec<u8> = vec![
        0x00u8, 0x00u8, 0x00u8, 0x00u8, 0x00u8, 0x22u8, 0xd4u8, 0x73u8, 0x03u8, 0x0fu8,
        0x11u8, 0x6du8, 0xdeu8, 0xe9u8, 0xf6u8, 0xb4u8, 0x3au8, 0xc7u8, 0x8bu8, 0xa3u8,
    ];
    assert(address@ =~= permit2_address());
    address
}

/// Computes the hash that is signed to permit the router to pull the
/// solution's given amount of its given token.
pub fn permit_digest(solution: &Solution, terms: PermitTerms, chain_id: u64) -> (digest: Vec<u8>)
    requires
        solution.given_token@.len() <= WORD_LEN,
        solution.router_address@.len() <= WORD_LEN,
    ensures
        digest@ == permit_digest_of(solution, terms, chain_id),
        digest@.len() == HASH_LEN,
{
    let mut domain: Vec<u8> = hash_text("EIP712Domain(string name,uint256 chainId,address verifyingContract)");
    let name = hash_text("Permit2");
    append(&mut domain, &name);
    append_be(&mut domain, chain_id as u128, WORD_LEN);
    let verifier = permit2_address_bytes();
    append_left_padded(&mut domain, &verifier, WORD_LEN);
    let domain_hashed = keccak256(&domain);

    let mut details: Vec<u8> = hash_text(
        "PermitDetails(address token,uint160 amount,uint48 expiration,uint48 nonce)",
    );
    append_left_padded(&mut details, &solution.given_token, WORD_LEN);
    append_be(&mut details, solution.given_amount, WORD_LEN);
    append_be(&mut details, terms.expiration as u128, WORD_LEN);
    append_be(&mut details, terms.nonce as u128, WORD_LEN);
    let details_hashed = keccak256(&details);

    let mut permit: Vec<u8> = hash_text(
        "PermitSingle(PermitDetails details,address spender,uint256 sigDeadline)PermitDetails(address token,uint160 amount,uint48 expiration,uint48 nonce)",
    );
    append(&mut permit, &details_hashed);
    append_left_padded(&mut permit, &solution.router_address, WORD_LEN);
    append_be(&mut permit, terms.sig_deadline as u128, WORD_LEN);
    let permit_hashed = keccak256(&permit);

    let mut message: Vec<u8> = vec![0x19u8, 0x01u8];
    assert(message@ =~= seq![0x19u8, 0x01u8]);
    append(&mut message, &domain_hashed);
    append(&mut message, &permit_hashed);
    keccak256(&message)
}

/// Lays a signature out as it stands in a call.
pub fn pack_signature(scalars: &Vec<u8>, id: u8) -> (signature: Vec<u8>)
    requires
        id < 4,
    ensures
        signature@ == signature_bytes(scalars@, id),
{
    let mut signature: Vec<u8> = Vec::new();
    append(&mut signature, scalars);
    signature.push(RECOVERY_BASE + id);
    signature
}

/// Signs the permission for the router to pull the solution's given amount
/// of its given token. A key or a hash that the signer refuses is a signing
/// fault.
pub fn sign_permit(key: &Vec<u8>, solution: &Solution, terms: PermitTerms, chain_id: u64) -> (signature: Result<
    Vec<u8>,
    EncodingError,
>)
    requires
        solution.given_token@.len() <= WORD_LEN,
        solution.router_address@.len() <= WORD_LEN,
    ensures
        match signature {
            Ok(s) => approval_signature(key@, solution, terms, chain_id) == Some(s@) && s@.len()
                == SIGNATURE_LEN,
            Err(e) => approval_signature(key@, solution, terms, chain_id) is None && e@
                == ErrorView::SigningError,
        },
{
    let digest = permit_digest(solution, terms, chain_id);
    match sign_prehash(key, &digest) {
        Some((scalars, id)) => Ok(pack_signature(&scalars, id)),
        None => Err(EncodingError::SigningError),
    }
}

} // verus!
