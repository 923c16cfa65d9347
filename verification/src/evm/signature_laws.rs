//! What is signed, and who signed it.
use crate::evm::error::AssociationError;
use crate::evm::signature::{
    address_of_digest, address_of_key, association_digest, association_digest_of, decimal,
    eip191_bytes, hash_message_eip191, keccak_256_digest, message_prefix, normalize, normalized,
    recover_signer, recovered_key, signer_address, uncompressed_key,
};
use crate::primitives::{AccountId, H160};
use vstd::prelude::*;

verus! {

/// The number that digits in base ten make, the most significant first.
pub open spec fn number_of(digits: Seq<u8>) -> int
    decreases digits.len(),
{
    if digits.len() == 0 {
        0
    } else {
        10 * number_of(digits.drop_last()) + (digits.last() - 48)
    }
}

/// Whether a text is a number in base ten, as it is written: digits only, and none of them a zero in
/// front of others.
pub open spec fn writes(digits: Seq<u8>, number: int) -> bool {
    &&& digits.len() > 0
    &&& forall|i: int| 0 <= i < digits.len() ==> 48 <= #[trigger] digits[i] <= 57
    &&& digits.len() > 1 ==> digits[0] != 48
    &&& number_of(digits) == number
}

/// Whether `bytes` are what is hashed of a message: the byte 0x19, the words that all such messages
/// start with, the length of the message in base ten, and the message.
pub open spec fn signed_bytes(bytes: Seq<u8>, message: Seq<u8>) -> bool {
    let head = seq![
        0x19u8, 0x45u8, 0x74u8, 0x68u8, 0x65u8, 0x72u8, 0x65u8, 0x75u8, 0x6du8, 0x20u8, 0x53u8,
        0x69u8, 0x67u8, 0x6eu8, 0x65u8, 0x64u8, 0x20u8, 0x4du8, 0x65u8, 0x73u8, 0x73u8, 0x61u8,
        0x67u8, 0x65u8, 0x3au8, 0x0au8,
    ];
    exists|digits: Seq<u8>| #[trigger]
        writes(digits, message.len() as int) && bytes == head + digits + message
}

/// The digits of a number write it.
pub proof fn lemma_writes(number: nat)
    ensures
        writes(decimal(number), number as int),
        number > 0 ==> decimal(number)[0] != 48,
    decreases number,
{
    let digits = decimal(number);
    if number < 10 {
        assert(digits.drop_last() =~= Seq::empty());
        assert(number_of(digits.drop_last()) == 0);
    } else {
        lemma_writes(number / 10);
        assert(digits.drop_last() =~= decimal(number / 10));
        assert(digits[0] == decimal(number / 10)[0]);
    }
}

/// A message is hashed behind the words that all such messages start with and its length.
pub proof fn law_hash_message_eip191(message: &[u8], digest: [u8; 32])
    requires
        call_ensures(hash_message_eip191, (message,), digest),
    ensures
        exists|bytes: Seq<u8>| #[trigger]
            signed_bytes(bytes, message@) && digest@ == keccak_256_digest(bytes),
{
    lemma_writes(message@.len());
    let bytes = eip191_bytes(message@);
    assert(writes(decimal(message@.len()), message@.len() as int));
    assert(signed_bytes(bytes, message@));
}

/// What is signed for a hotkey and a block is the bytes of the hotkey followed by the digest of the
/// block's eight bytes, the least significant first.
pub proof fn law_association_digest_of(hotkey: AccountId, block_number: u64, digest: [u8; 32])
    requires
        call_ensures(association_digest_of, (&hotkey, block_number), digest),
    ensures
        exists|bytes: Seq<u8>| #[trigger]
            signed_bytes(
                bytes,
                hotkey.0@ + keccak_256_digest(vstd::bytes::spec_u64_to_le_bytes(block_number)),
            ) && digest@ == keccak_256_digest(bytes),
{
    let message = hotkey.0@ + keccak_256_digest(vstd::bytes::spec_u64_to_le_bytes(block_number));
    lemma_writes(message.len());
    assert(writes(decimal(message.len()), message.len() as int));
    assert(signed_bytes(eip191_bytes(message), message));
}

/// A signature keeps its first 64 bytes, and its last one counts from 0.
pub proof fn law_normalize(signature: [u8; 65], normal: [u8; 65])
    requires
        call_ensures(normalize, (signature,), normal),
    ensures
        forall|i: int| 0 <= i < 64 ==> #[trigger] normal@[i] == signature@[i],
        signature@[64] < 27 ==> normal@[64] == signature@[64],
        signature@[64] >= 27 ==> normal@[64] == signature@[64] - 27,
{
}

/// The address of a key is the last 20 bytes of the digest of the key without its first byte.
pub proof fn law_address_of_key(uncompressed: [u8; 65], address: H160)
    requires
        call_ensures(address_of_key, (&uncompressed,), address),
    ensures
        address.0@ == keccak_256_digest(uncompressed@.skip(1)).subrange(12, 32),
{
    assert(uncompressed@.skip(1) =~= uncompressed@.subrange(1, 65));
}

/// The address in a digest is its last 20 bytes.
pub proof fn law_address_of_digest(digest: [u8; 32], address: H160)
    requires
        call_ensures(address_of_digest, (&digest,), address),
    ensures
        forall|i: int| 0 <= i < 20 ==> #[trigger] address.0@[i] == digest@[12 + i],
{
}

/// Who signed a digest: the address of the key that the signature gives back, its last byte counted
/// from 0, or why there is none.
pub open spec fn signer_by(signature: Seq<u8>, digest: Seq<u8>) -> Result<
    Seq<u8>,
    AssociationError,
> {
    let counted = if signature[64] < 27 {
        signature[64]
    } else {
        (signature[64] - 27) as u8
    };
    match recovered_key(signature.take(64).push(counted), digest) {
        None => Err(AssociationError::InvalidIdentity),
        Some(compressed) => match uncompressed_key(compressed) {
            None => Err(AssociationError::UnableToRecoverPublicKey),
            Some(key) => Ok(keccak_256_digest(key.subrange(1, 65)).subrange(12, 32)),
        },
    }
}

/// Who signed for a hotkey and a block.
pub open spec fn signer_of(signature: Seq<u8>, hotkey: AccountId, block_number: u64) -> Result<
    Seq<u8>,
    AssociationError,
> {
    let message = hotkey.0@ + keccak_256_digest(vstd::bytes::spec_u64_to_le_bytes(block_number));
    let bytes = choose|bytes: Seq<u8>| signed_bytes(bytes, message);
    signer_by(signature, keccak_256_digest(bytes))
}

/// A signature with its last byte counted from 0.
proof fn lemma_signer_by(signature: Seq<u8>, digest: Seq<u8>)
    requires
        signature.len() == 65,
    ensures
        signer_by(signature, digest) == signer_address(signature, digest),
{
    let counted = if signature[64] < 27 {
        signature[64]
    } else {
        (signature[64] - 27) as u8
    };
    assert(signature.take(64).push(counted) =~= normalized(signature));
}

/// A number is written in one way only.
proof fn lemma_one_way(a: Seq<u8>, b: Seq<u8>, number: int)
    requires
        writes(a, number),
        writes(b, number),
    ensures
        a == b,
    decreases a.len(),
{
    lemma_size(a);
    lemma_size(b);
    let (x, y) = (a.drop_last(), b.drop_last());
    assert(number_of(x) == number_of(y) && a.last() == b.last());
    if x.len() > 0 && y.len() > 0 {
        assert(forall|i: int| 0 <= i < x.len() ==> #[trigger] x[i] == a[i]);
        assert(forall|i: int| 0 <= i < y.len() ==> #[trigger] y[i] == b[i]);
        lemma_one_way(x, y, number_of(x));
    } else if x.len() > 0 {
        assert(forall|i: int| 0 <= i < x.len() ==> #[trigger] x[i] == a[i]);
        lemma_size(x);
    } else if y.len() > 0 {
        assert(forall|i: int| 0 <= i < y.len() ==> #[trigger] y[i] == b[i]);
        lemma_size(y);
    }
    assert(a =~= x.push(a.last()));
    assert(b =~= y.push(b.last()));
}

/// Digits make a number that is not negative, and that is not zero where the first is not.
proof fn lemma_size(digits: Seq<u8>)
    requires
        forall|i: int| 0 <= i < digits.len() ==> 48 <= #[trigger] digits[i] <= 57,
    ensures
        number_of(digits) >= 0,
        digits.len() > 0 && digits[0] != 48 ==> number_of(digits) > 0,
    decreases digits.len(),
{
    if digits.len() > 0 {
        let fewer = digits.drop_last();
        assert(forall|i: int| 0 <= i < fewer.len() ==> #[trigger] fewer[i] == digits[i]);
        lemma_size(fewer);
    }
}

/// Who signed is told by the bytes that are hashed.
pub proof fn lemma_signer(signature: Seq<u8>, hotkey: AccountId, block_number: u64)
    requires
        signature.len() == 65,
    ensures
        signer_of(signature, hotkey, block_number) == signer_address(
            signature,
            association_digest(hotkey, block_number),
        ),
{
    let message = hotkey.0@ + keccak_256_digest(vstd::bytes::spec_u64_to_le_bytes(block_number));
    let expected = eip191_bytes(message);
    lemma_writes(message.len());
    assert(writes(decimal(message.len()), message.len() as int));
    assert(signed_bytes(expected, message));
    let bytes = choose|bytes: Seq<u8>| signed_bytes(bytes, message);
    let digits = choose|digits: Seq<u8>| #[trigger]
        writes(digits, message.len() as int) && bytes
            == message_prefix() + digits + message;
    lemma_one_way(digits, decimal(message.len()), message.len() as int);
    lemma_signer_by(signature, keccak_256_digest(bytes));
}

/// The signer of a digest is the one that its key gives, or the reason why there is none.
pub proof fn law_recover_signer(
    signature: [u8; 65],
    digest: [u8; 32],
    signer: Result<H160, AssociationError>,
)
    requires
        call_ensures(recover_signer, (signature, &digest), signer),
    ensures
        match signer_by(signature@, digest@) {
            Ok(address) => signer is Ok && signer->Ok_0.0@ == address,
            Err(error) => signer == Err::<H160, AssociationError>(error),
        },
{
    lemma_signer_by(signature@, digest@);
}

} // verus!
