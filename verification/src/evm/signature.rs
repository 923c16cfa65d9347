//! Signed messages: what an EVM key signs to be associated with a hotkey, and whose key signed.
use crate::evm::error::AssociationError;
use crate::primitives::{AccountId, H160};
use vstd::prelude::*;

verus! {

/// The Keccak-256 digest of a byte string.
pub uninterp spec fn keccak_256_digest(data: Seq<u8>) -> Seq<u8>;

/// The compressed public key that a recoverable ECDSA signature over a digest gives back, if any.
pub uninterp spec fn recovered_key(signature: Seq<u8>, digest: Seq<u8>) -> Option<Seq<u8>>;

/// The uncompressed form of a compressed secp256k1 public key, if the bytes are one.
pub uninterp spec fn uncompressed_key(compressed: Seq<u8>) -> Option<Seq<u8>>;

/// An error of the secp256k1 key parser.
#[verifier::external_type_specification]
#[verifier::external_body]
pub struct ExSecpError(libsecp256k1::Error);

/// `sp_core::hashing::keccak_256`: a digest that depends on the bytes alone.
#[verifier::external_body]
pub(crate) fn keccak_256(data: &[u8]) -> (digest: [u8; 32])
    ensures
        digest@ == keccak_256_digest(data@),
{
    sp_core::hashing::keccak_256(data)
}

/// `sp_core::ecdsa::Signature::recover_prehashed`: the compressed public key that signed the
/// digest, or nothing where the signature is malformed or gives back no key. Which of these it is,
/// and the key, depend on the signature and the digest alone.
#[verifier::external_body]
pub(crate) fn recover_prehashed(signature: &[u8; 65], digest: &[u8; 32]) -> (key: Option<[u8; 33]>)
    ensures
        key is Some <==> recovered_key(signature@, digest@) is Some,
        key matches Some(k) ==> Some(k@) == recovered_key(signature@, digest@),
{
    sp_core::ecdsa::Signature::from_raw(*signature).recover_prehashed(digest).map(|key| key.0)
}

/// `libsecp256k1::PublicKey::parse_compressed`, with the key given as `PublicKey::serialize` writes
/// it: 65 bytes that depend on the compressed bytes alone, or an error where those are no key.
#[verifier::external_body]
pub(crate) fn parse_compressed(compressed: &[u8; 33]) -> (key: Result<
    [u8; 65],
    libsecp256k1::Error,
>)
    ensures
        key is Ok <==> uncompressed_key(compressed@) is Some,
        key matches Ok(k) ==> Some(k@) == uncompressed_key(compressed@),
{
    libsecp256k1::PublicKey::parse_compressed(compressed).map(|key| key.serialize())
}

/// The digits of a number in base ten, the most significant first, in ASCII.
pub open spec fn decimal(number: nat) -> Seq<u8>
    decreases number,
{
    if number < 10 {
        seq![(48 + number) as u8]
    } else {
        decimal(number / 10).push((48 + number % 10) as u8)
    }
}

/// The bytes that every signed message starts with: the byte 25, `Ethereum Signed Message:` and a
/// line feed.
pub open spec fn message_prefix() -> Seq<u8> {
    seq![
        0x19u8, 0x45u8, 0x74u8, 0x68u8, 0x65u8, 0x72u8, 0x65u8, 0x75u8, 0x6du8, 0x20u8, 0x53u8, 0x69u8,
        0x67u8, 0x6eu8, 0x65u8, 0x64u8, 0x20u8, 0x4du8, 0x65u8, 0x73u8, 0x73u8, 0x61u8, 0x67u8, 0x65u8,
        0x3au8, 0x0au8,
    ]
}

/// The bytes that are hashed for a signed message: the prefix, the message's length in base ten,
/// and the message.
pub open spec fn eip191_bytes(message: Seq<u8>) -> Seq<u8> {
    message_prefix() + decimal(message.len()) + message
}

/// The message that ties a hotkey to a block: the hotkey, and the digest of the block's number in
/// eight bytes, the least significant first.
pub open spec fn association_message(hotkey: AccountId, block_number: u64) -> Seq<u8> {
    hotkey.0@ + keccak_256_digest(vstd::bytes::spec_u64_to_le_bytes(block_number))
}

/// The digest that an EVM key signs to be associated with a hotkey.
pub open spec fn association_digest(hotkey: AccountId, block_number: u64) -> Seq<u8> {
    keccak_256_digest(eip191_bytes(association_message(hotkey, block_number)))
}

/// A signature with its recovery byte counted from 0, where wallets count it from 27.
pub open spec fn normalized(signature: Seq<u8>) -> Seq<u8> {
    if signature[64] >= 27 {
        signature.update(64, (signature[64] - 27) as u8)
    } else {
        signature
    }
}

/// The EVM address of an uncompressed public key: the last twenty bytes of the digest of the key
/// without its tag byte.
pub open spec fn key_address(uncompressed: Seq<u8>) -> Seq<u8> {
    keccak_256_digest(uncompressed.subrange(1, 65)).subrange(12, 32)
}

/// The EVM address that signed a digest, or why there is none.
pub open spec fn signer_address(
    signature: Seq<u8>,
    digest: Seq<u8>,
) -> Result<Seq<u8>, AssociationError> {
    match recovered_key(normalized(signature), digest) {
        None => Err(AssociationError::InvalidIdentity),
        Some(compressed) => match uncompressed_key(compressed) {
            None => Err(AssociationError::UnableToRecoverPublicKey),
            Some(uncompressed) => Ok(key_address(uncompressed)),
        },
    }
}

/// Whether `found` is what `expected` says: the same refusal, or an address of the same bytes.
pub open spec fn same_signer(
    found: Result<H160, AssociationError>,
    expected: Result<Seq<u8>, AssociationError>,
) -> bool {
    match (found, expected) {
        (Ok(address), Ok(bytes)) => address.0@ == bytes,
        (Err(e), Err(f)) => e == f,
        _ => false,
    }
}

/// Appends the digits of `number` in base ten.
fn push_decimal(bytes: &mut Vec<u8>, number: usize)
    ensures
        final(bytes)@ == old(bytes)@ + decimal(number as nat),
    decreases number,
{
    if number >= 10 {
        push_decimal(bytes, number / 10);
    }
    let digit: u8 = 48 + (number % 10) as u8;
    bytes.push(digit);
    assert(bytes@ =~= old(bytes)@ + decimal(number as nat));
}

/// Appends `more`.
fn push_bytes(bytes: &mut Vec<u8>, more: &[u8])
    ensures
        final(bytes)@ == old(bytes)@ + more@,
{
    bytes.extend_from_slice(more);
    assert(bytes@ =~= old(bytes)@ + more@);
}

/// The digest of a message as a wallet signs it.
pub fn hash_message_eip191(message: &[u8]) -> (digest: [u8; 32])
    ensures
        digest@ == keccak_256_digest(eip191_bytes(message@)),
{
    let prefix: [u8; 26] = [
        0x19u8, 0x45u8, 0x74u8, 0x68u8, 0x65u8, 0x72u8, 0x65u8, 0x75u8, 0x6du8, 0x20u8, 0x53u8, 0x69u8,
        0x67u8, 0x6eu8, 0x65u8, 0x64u8, 0x20u8, 0x4du8, 0x65u8, 0x73u8, 0x73u8, 0x61u8, 0x67u8, 0x65u8,
        0x3au8, 0x0au8,
    ];
    assert(prefix@ =~= message_prefix());
    let mut bytes: Vec<u8> = Vec::new();
    push_bytes(&mut bytes, prefix.as_slice());
    push_decimal(&mut bytes, message.len());
    push_bytes(&mut bytes, message);
    assert(bytes@ =~= eip191_bytes(message@));
    keccak_256(bytes.as_slice())
}

/// The digest that an EVM key signs to be associated with `hotkey`.
pub fn association_digest_of(hotkey: &AccountId, block_number: u64) -> (digest: [u8; 32])
    ensures
        digest@ == association_digest(*hotkey, block_number),
{
    let block_bytes = vstd::bytes::u64_to_le_bytes(block_number);
    let block_hash = keccak_256(block_bytes.as_slice());
    let mut message: Vec<u8> = Vec::new();
    push_bytes(&mut message, hotkey.0.as_slice());
    push_bytes(&mut message, block_hash.as_slice());
    assert(message@ =~= association_message(*hotkey, block_number));
    hash_message_eip191(message.as_slice())
}

/// A signature with its recovery byte counted from 0.
pub fn normalize(signature: [u8; 65]) -> (normal: [u8; 65])
    ensures
        normal@ == normalized(signature@),
{
    let mut normal = signature;
    if normal[64] >= 27 {
        normal[64] = normal[64] - 27;
    }
    assert(normal@ =~= normalized(signature@));
    normal
}

/// The EVM address of an uncompressed public key.
pub fn address_of_key(uncompressed: &[u8; 65]) -> (address: H160)
    ensures
        address.0@ == key_address(uncompressed@),
{
    let digest = keccak_256(vstd::slice::slice_subrange(uncompressed.as_slice(), 1, 65));
    address_of_digest(&digest)
}

/// The last twenty bytes of a digest, as an address.
pub fn address_of_digest(digest: &[u8; 32]) -> (address: H160)
    ensures
        address.0@ == digest@.subrange(12, 32),
{
    let mut bytes: [u8; 20] = [0u8; 20];
    let mut i: usize = 0;
    while i < 20
        invariant
            i <= 20,
            forall|j: int| 0 <= j < i ==> bytes@[j] == digest@[j + 12],
        decreases 20 - i,
    {
        bytes[i] = digest[i + 12];
        i = i + 1;
    }
    assert(bytes@ =~= digest@.subrange(12, 32));
    H160(bytes)
}

/// The EVM address that signed `digest`, or why there is none.
pub fn recover_signer(
    signature: [u8; 65],
    digest: &[u8; 32],
) -> (signer: Result<H160, AssociationError>)
    ensures
        same_signer(signer, signer_address(signature@, digest@)),
{
    let normal = normalize(signature);
    match recover_prehashed(&normal, digest) {
        None => Err(AssociationError::InvalidIdentity),
        Some(compressed) => match parse_compressed(&compressed) {
            Err(_) => Err(AssociationError::UnableToRecoverPublicKey),
            Ok(uncompressed) => Ok(address_of_key(&uncompressed)),
        },
    }
}

} // verus!
