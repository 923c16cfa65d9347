use evm_staking::evm::error::AssociationError;
use evm_staking::evm::migration::migrate_associated_evm_address_index;
use evm_staking::evm::pallet::{Config, DbWeight, Event, Origin, Pallet};
use evm_staking::evm::signature::{
    address_of_digest, address_of_key, association_digest_of, hash_message_eip191, normalize,
    recover_signer,
};
use evm_staking::primitives::{AccountId, H160};
use evm_staking::storage_table::StorageTable;
use sp_core::{ecdsa, Pair};
use std::collections::BTreeMap;

const MAX_ASSOCIATED_UIDS_PER_EVM_ADDRESS: u32 = 16;
const RATE_LIMIT: u64 = 10;

fn account(number: u8) -> AccountId {
    let mut bytes = [0u8; 32];
    bytes[0] = number;
    AccountId(bytes)
}

fn config() -> Config {
    Config {
        max_associated_uids_per_evm_address: MAX_ASSOCIATED_UIDS_PER_EVM_ADDRESS,
        evm_key_associate_rate_limit: RATE_LIMIT,
        default_account: account(0),
        db_weight: DbWeight { read: 3, write: 100 },
    }
}

fn new_test_ext(block_number: u64) -> Pallet {
    let mut pallet = Pallet::new(config());
    pallet.block_number = block_number;
    pallet
}

fn bucket(pallet: &Pallet, netuid: u16, evm_key: H160) -> Vec<(u16, u64)> {
    pallet
        .associated_uids_by_evm_address
        .get(&(netuid, evm_key))
        .cloned()
        .unwrap_or_default()
}

fn association(pallet: &Pallet, netuid: u16, uid: u16) -> Option<(H160, u64)> {
    pallet.associated_evm_address.get(&(netuid, uid)).copied()
}

fn public_to_evm_key(pubkey: &ecdsa::Public) -> H160 {
    let secp_pub = libsecp256k1::PublicKey::parse_compressed(&pubkey.0).expect("Invalid pubkey");
    let uncompressed = secp_pub.serialize();
    let hash = sp_core::keccak_256(&uncompressed[1..]);
    let mut address = [0u8; 20];
    address.copy_from_slice(&hash[12..]);
    H160(address)
}

fn sign_evm_message(pair: &ecdsa::Pair, message: &[u8]) -> [u8; 65] {
    let hash = hash_message_eip191(message);
    let mut sig = pair.sign_prehashed(&hash);
    sig.0[64] += 27;
    sig.0
}

fn message(hotkey: &AccountId, block_number: u64) -> Vec<u8> {
    let hashed_block_number = sp_core::keccak_256(&block_number.to_le_bytes());
    [hotkey.0.as_slice(), hashed_block_number.as_slice()].concat()
}

fn signed_message(pair: &ecdsa::Pair, hotkey: &AccountId, block_number: u64) -> [u8; 65] {
    sign_evm_message(pair, &message(hotkey, block_number))
}

fn register_ok_neuron(pallet: &mut Pallet, netuid: u16, hotkey: AccountId, coldkey: AccountId) {
    pallet.owner.insert(hotkey, coldkey);
    pallet.uids.insert((netuid, hotkey), 0);
}

#[test]
fn test_associate_evm_key_success() {
    let mut pallet = new_test_ext(1);
    let netuid = 1;
    pallet.block_number = RATE_LIMIT;
    let coldkey = account(1);
    let hotkey = account(2);
    register_ok_neuron(&mut pallet, netuid, hotkey, coldkey);

    let pair = ecdsa::Pair::generate().0;
    let evm_key = public_to_evm_key(&pair.public());
    let block_number = pallet.block_number;
    let signature = signed_message(&pair, &hotkey, block_number);

    assert_eq!(
        pallet.do_associate_evm_key(
            Origin::Signed(hotkey),
            netuid,
            evm_key,
            block_number,
            signature
        ),
        Ok(())
    );
    assert_eq!(
        pallet.events.last(),
        Some(&Event::EvmKeyAssociated {
            netuid,
            hotkey,
            evm_key,
            block_associated: block_number,
        })
    );
    assert_eq!(association(&pallet, netuid, 0), Some((evm_key, block_number)));
    assert_eq!(bucket(&pallet, netuid, evm_key), vec![(0, block_number)]);
}

#[test]
fn test_associate_evm_key_different_block_number_success() {
    let mut pallet = new_test_ext(100);
    let netuid = 1;
    pallet.block_number = RATE_LIMIT;
    let coldkey = account(1);
    let hotkey = account(2);
    register_ok_neuron(&mut pallet, netuid, hotkey, coldkey);

    let pair = ecdsa::Pair::generate().0;
    let evm_key = public_to_evm_key(&pair.public());
    let block_number = 99u64;
    let signature = signed_message(&pair, &hotkey, block_number);

    assert_eq!(
        pallet.do_associate_evm_key(
            Origin::Signed(hotkey),
            netuid,
            evm_key,
            block_number,
            signature
        ),
        Ok(())
    );
    assert_eq!(
        pallet.events.last(),
        Some(&Event::EvmKeyAssociated {
            netuid,
            hotkey,
            evm_key,
            block_associated: RATE_LIMIT,
        })
    );
}

#[test]
fn test_associate_evm_key_coldkey_does_not_own_hotkey() {
    let mut pallet = new_test_ext(1);
    let netuid = 1;
    let hotkey = account(2);
    let pair = ecdsa::Pair::generate().0;
    let evm_key = public_to_evm_key(&pair.public());
    let block_number = pallet.block_number;
    let signature = signed_message(&pair, &hotkey, block_number);

    assert_eq!(
        pallet.do_associate_evm_key(
            Origin::Signed(hotkey),
            netuid,
            evm_key,
            block_number,
            signature
        ),
        Err(AssociationError::NonAssociatedColdKey)
    );
}

#[test]
fn test_associate_evm_key_hotkey_not_registered_in_subnet() {
    let mut pallet = new_test_ext(1);
    let netuid = 1;
    let coldkey = account(1);
    let hotkey = account(2);
    pallet.owner.insert(hotkey, coldkey);

    let pair = ecdsa::Pair::generate().0;
    let evm_key = public_to_evm_key(&pair.public());
    let block_number = pallet.block_number;
    let signature = signed_message(&pair, &hotkey, block_number);

    assert_eq!(
        pallet.do_associate_evm_key(
            Origin::Signed(hotkey),
            netuid,
            evm_key,
            block_number,
            signature
        ),
        Err(AssociationError::HotKeyNotRegisteredInSubNet)
    );
}

#[test]
fn test_associate_evm_key_using_wrong_hash_function() {
    let mut pallet = new_test_ext(1);
    let netuid = 1;
    pallet.block_number = RATE_LIMIT;
    let coldkey = account(1);
    let hotkey = account(2);
    register_ok_neuron(&mut pallet, netuid, hotkey, coldkey);

    let pair = ecdsa::Pair::generate().0;
    let evm_key = public_to_evm_key(&pair.public());
    let block_number = pallet.block_number;
    let hashed_message = sp_core::blake2_256(&message(&hotkey, block_number));
    let signature = pair.sign_prehashed(&hashed_message).0;

    assert_eq!(
        pallet.do_associate_evm_key(
            Origin::Signed(hotkey),
            netuid,
            evm_key,
            block_number,
            signature
        ),
        Err(AssociationError::InvalidRecoveredPublicKey)
    );
}

#[test]
fn test_associate_evm_key_rate_limit_exceeded() {
    let mut pallet = new_test_ext(1);
    let netuid = 1;
    pallet.block_number = RATE_LIMIT;
    let coldkey = account(1);
    let hotkey = account(2);
    register_ok_neuron(&mut pallet, netuid, hotkey, coldkey);

    let pair = ecdsa::Pair::generate().0;
    let evm_key = public_to_evm_key(&pair.public());
    let block_number = pallet.block_number;
    let signature = signed_message(&pair, &hotkey, block_number);

    // First association should succeed
    assert_eq!(
        pallet.do_associate_evm_key(
            Origin::Signed(hotkey),
            netuid,
            evm_key,
            block_number,
            signature
        ),
        Ok(())
    );

    pallet.block_number += 1;
    let block_number = pallet.block_number;
    let signature = signed_message(&pair, &hotkey, block_number);
    let before = association(&pallet, netuid, 0);

    // Second association should fail due to rate limit
    assert_eq!(
        pallet.do_associate_evm_key(
            Origin::Signed(hotkey),
            netuid,
            evm_key,
            block_number,
            signature
        ),
        Err(AssociationError::EvmKeyAssociateRateLimitExceeded)
    );
    assert_eq!(association(&pallet, netuid, 0), before);
    assert_eq!(pallet.events.len(), 1);

    pallet.block_number += RATE_LIMIT;
    let block_number = pallet.block_number;
    let signature = signed_message(&pair, &hotkey, block_number);

    assert_eq!(
        pallet.do_associate_evm_key(
            Origin::Signed(hotkey),
            netuid,
            evm_key,
            block_number,
            signature
        ),
        Ok(())
    );
    assert_eq!(association(&pallet, netuid, 0), Some((evm_key, block_number)));
    assert_eq!(bucket(&pallet, netuid, evm_key), vec![(0, block_number)]);
}

#[test]
fn test_associate_evm_key_cap_exceeded() {
    let mut pallet = new_test_ext(1);
    let netuid = 1;
    pallet.block_number = RATE_LIMIT;
    let coldkey = account(1);
    let hotkey = account(2);
    register_ok_neuron(&mut pallet, netuid, hotkey, coldkey);
    let uid = *pallet.uids.get(&(netuid, hotkey)).unwrap();

    let pair = ecdsa::Pair::generate().0;
    let evm_key = public_to_evm_key(&pair.public());

    // Fill the reverse-index bucket for `evm_key` to capacity with other UIDs.
    for i in 0..MAX_ASSOCIATED_UIDS_PER_EVM_ADDRESS as u16 {
        pallet.set_associated_evm_address(netuid, uid + 1 + i, evm_key, 1);
    }
    assert_eq!(
        bucket(&pallet, netuid, evm_key).len(),
        MAX_ASSOCIATED_UIDS_PER_EVM_ADDRESS as usize
    );

    // A valid association for the real neuron's UID must be rejected: it would need a
    // brand-new slot in an already-full bucket.
    let block_number = pallet.block_number;
    let signature = signed_message(&pair, &hotkey, block_number);
    assert_eq!(
        pallet.do_associate_evm_key(
            Origin::Signed(hotkey),
            netuid,
            evm_key,
            block_number,
            signature
        ),
        Err(AssociationError::EvmKeyAssociationLimitExceeded)
    );
    assert_eq!(association(&pallet, netuid, uid), None);
    assert_eq!(
        bucket(&pallet, netuid, evm_key).len(),
        MAX_ASSOCIATED_UIDS_PER_EVM_ADDRESS as usize
    );
}

#[test]
fn test_evm_address_index_capacity_allows_refresh_when_full() {
    let mut pallet = new_test_ext(1);
    let netuid = 1;
    let evm_key = H160([7u8; 20]);

    // Fill the bucket to capacity with distinct UIDs 0..MAX.
    for uid in 0..MAX_ASSOCIATED_UIDS_PER_EVM_ADDRESS as u16 {
        pallet.set_associated_evm_address(netuid, uid, evm_key, 1);
    }

    // A UID already tracked by the full bucket may be re-associated (e.g. block refresh):
    // it consumes no new slot.
    let tracked_uid = 0u16;
    assert_eq!(
        pallet.ensure_evm_address_index_capacity(netuid, tracked_uid, evm_key),
        Ok(())
    );

    // The refresh updates the stored block in place without growing the bucket.
    pallet.set_associated_evm_address(netuid, tracked_uid, evm_key, 42);
    let stored = bucket(&pallet, netuid, evm_key);
    assert_eq!(stored.len(), MAX_ASSOCIATED_UIDS_PER_EVM_ADDRESS as usize);
    assert_eq!(
        stored.iter().find(|(u, _)| *u == tracked_uid).unwrap().1,
        42
    );

    // A brand-new UID is rejected once the bucket is full.
    assert_eq!(
        pallet.ensure_evm_address_index_capacity(
            netuid,
            MAX_ASSOCIATED_UIDS_PER_EVM_ADDRESS as u16,
            evm_key
        ),
        Err(AssociationError::EvmKeyAssociationLimitExceeded)
    );
}

#[test]
fn test_evm_address_index_capacity_rejects_switch_onto_full_address() {
    let mut pallet = new_test_ext(1);
    let netuid = 1;
    let addr_a = H160([0xaa; 20]);
    let addr_b = H160([0xbb; 20]);

    // UID 100 currently associated to addr_a.
    let uid = 100u16;
    pallet.set_associated_evm_address(netuid, uid, addr_a, 1);

    // addr_b is filled to capacity with other UIDs.
    for u in 0..MAX_ASSOCIATED_UIDS_PER_EVM_ADDRESS as u16 {
        pallet.set_associated_evm_address(netuid, u, addr_b, 1);
    }

    // Moving UID 100 onto the full addr_b must be rejected...
    assert_eq!(
        pallet.ensure_evm_address_index_capacity(netuid, uid, addr_b),
        Err(AssociationError::EvmKeyAssociationLimitExceeded)
    );

    // ...leaving UID 100 still associated to addr_a.
    assert_eq!(
        association(&pallet, netuid, uid).map(|(k, _)| k),
        Some(addr_a)
    );
}

#[test]
fn test_associate_evm_key_uid_not_found() {
    let mut pallet = new_test_ext(1);
    let netuid = 1;
    let hotkey = account(2);
    let pair = ecdsa::Pair::generate().0;
    let evm_key = public_to_evm_key(&pair.public());
    let block_number = pallet.block_number;
    let signature = signed_message(&pair, &hotkey, block_number);

    assert_eq!(
        pallet.do_associate_evm_key(
            Origin::Signed(hotkey),
            netuid,
            evm_key,
            block_number,
            signature
        ),
        Err(AssociationError::NonAssociatedColdKey)
    );
    assert_eq!(pallet.associated_evm_address.len(), 0);
    assert_eq!(pallet.events.len(), 0);
}

#[test]
fn unsigned_and_root_origins_are_refused() {
    let mut pallet = new_test_ext(RATE_LIMIT);
    for origin in [Origin::Root, Origin::Unsigned] {
        assert_eq!(
            pallet.do_associate_evm_key(origin, 1, H160([1; 20]), 1, [0; 65]),
            Err(AssociationError::BadOrigin)
        );
    }
}

#[test]
fn a_signature_that_recovers_nobody_is_refused() {
    let mut pallet = new_test_ext(RATE_LIMIT);
    register_ok_neuron(&mut pallet, 1, account(2), account(1));
    assert_eq!(
        pallet.do_associate_evm_key(
            Origin::Signed(account(2)),
            1,
            H160([1; 20]),
            RATE_LIMIT,
            [0; 65]
        ),
        Err(AssociationError::InvalidIdentity)
    );
    assert_eq!(recover_signer([0; 65], &[1; 32]), Err(AssociationError::InvalidIdentity));
}

#[test]
fn a_key_that_cannot_be_parsed_is_passed_on() {
    let mut pallet = new_test_ext(RATE_LIMIT);
    assert_eq!(
        pallet.associate_signer(
            1,
            account(2),
            0,
            H160([1; 20]),
            Err(AssociationError::UnableToRecoverPublicKey)
        ),
        Err(AssociationError::UnableToRecoverPublicKey)
    );
    assert_eq!(pallet.events.len(), 0);
}

#[test]
fn a_signer_is_associated_only_as_themselves() {
    let mut pallet = new_test_ext(RATE_LIMIT);
    assert_eq!(
        pallet.associate_signer(1, account(2), 0, H160([1; 20]), Ok(H160([2; 20]))),
        Err(AssociationError::InvalidRecoveredPublicKey)
    );
    assert_eq!(
        pallet.associate_signer(1, account(2), 0, H160([1; 20]), Ok(H160([1; 20]))),
        Ok(())
    );
    assert_eq!(association(&pallet, 1, 0), Some((H160([1; 20]), RATE_LIMIT)));
}

#[test]
fn the_message_hash_puts_prefix_and_length_in_front() {
    let expected = sp_core::keccak_256(b"\x19Ethereum Signed Message:\n12hello world!");
    assert_eq!(hash_message_eip191(b"hello world!"), expected);
    let empty = sp_core::keccak_256(b"\x19Ethereum Signed Message:\n0");
    assert_eq!(hash_message_eip191(b""), empty);
    let long = [0x61u8; 1000];
    let mut bytes = b"\x19Ethereum Signed Message:\n1000".to_vec();
    bytes.extend_from_slice(&long);
    assert_eq!(hash_message_eip191(&long), sp_core::keccak_256(&bytes));
}

#[test]
fn the_association_digest_covers_hotkey_and_block() {
    let hotkey = account(2);
    assert_eq!(
        association_digest_of(&hotkey, 99),
        hash_message_eip191(&message(&hotkey, 99))
    );
}

#[test]
fn recovery_ids_from_27_on_are_lowered() {
    let mut signature = [9u8; 65];
    for (given, expected) in [(0u8, 0u8), (1, 1), (26, 26), (27, 0), (28, 1), (255, 228)] {
        signature[64] = given;
        let normal = normalize(signature);
        assert_eq!(normal[64], expected);
        assert_eq!(normal[..64], signature[..64]);
    }
}

#[test]
fn an_address_is_the_end_of_the_hash_of_the_key() {
    let pair = ecdsa::Pair::generate().0;
    let uncompressed = libsecp256k1::PublicKey::parse_compressed(&pair.public().0)
        .unwrap()
        .serialize();
    assert_eq!(
        address_of_key(&uncompressed),
        public_to_evm_key(&pair.public())
    );
    let mut digest = [0u8; 32];
    for (i, byte) in digest.iter_mut().enumerate() {
        *byte = i as u8;
    }
    let address = address_of_digest(&digest);
    assert_eq!(address.0[..], digest[12..]);
}

#[test]
fn a_known_key_signs_for_its_address() {
    let pair = ecdsa::Pair::from_seed(&[1u8; 32]);
    let digest = hash_message_eip191(b"a message");
    let plain = pair.sign_prehashed(&digest).0;
    let mut shifted = plain;
    shifted[64] += 27;
    let address = public_to_evm_key(&pair.public());
    assert_eq!(
        address.0,
        [
            0x1a, 0x64, 0x2f, 0x0e, 0x3c, 0x3a, 0xf5, 0x45, 0xe7, 0xac, 0xbd, 0x38, 0xb0, 0x72,
            0x51, 0xb3, 0x99, 0x09, 0x14, 0xf1
        ]
    );
    assert_eq!(recover_signer(plain, &digest), Ok(address));
    assert_eq!(recover_signer(shifted, &digest), Ok(address));
}

#[test]
fn an_association_moves_between_addresses() {
    let mut pallet = new_test_ext(5);
    let (a, b) = (H160([1; 20]), H160([2; 20]));
    pallet.set_associated_evm_address(1, 7, a, 5);
    pallet.set_associated_evm_address(1, 8, a, 6);
    pallet.set_associated_evm_address(1, 7, b, 9);
    assert_eq!(bucket(&pallet, 1, a), vec![(8, 6)]);
    assert_eq!(bucket(&pallet, 1, b), vec![(7, 9)]);
    assert_eq!(association(&pallet, 1, 7), Some((b, 9)));

    pallet.remove_associated_evm_address(1, 8);
    assert!(pallet.associated_uids_by_evm_address.get(&(1, a)).is_none());
    assert_eq!(association(&pallet, 1, 8), None);
    pallet.remove_associated_evm_address(1, 8);
    assert_eq!(bucket(&pallet, 1, b), vec![(7, 9)]);
}

#[test]
fn setting_an_association_on_a_full_address_leaves_the_bucket_as_it_is() {
    let mut pallet = new_test_ext(5);
    let key = H160([1; 20]);
    for uid in 0..MAX_ASSOCIATED_UIDS_PER_EVM_ADDRESS as u16 {
        pallet.set_associated_evm_address(1, uid, key, 1);
    }
    let full = bucket(&pallet, 1, key);
    pallet.set_associated_evm_address(1, 99, key, 2);
    assert_eq!(bucket(&pallet, 1, key), full);
    assert_eq!(association(&pallet, 1, 99), Some((key, 2)));
}

#[test]
fn clearing_a_subnet_leaves_the_others() {
    let mut pallet = new_test_ext(5);
    let key = H160([1; 20]);
    pallet.set_associated_evm_address(1, 7, key, 5);
    pallet.set_associated_evm_address(2, 7, key, 5);
    pallet.set_associated_evm_address(1, 8, H160([2; 20]), 5);
    pallet.clear_associated_evm_addresses(1);
    assert_eq!(association(&pallet, 1, 7), None);
    assert_eq!(association(&pallet, 1, 8), None);
    assert_eq!(bucket(&pallet, 1, key), vec![]);
    assert_eq!(association(&pallet, 2, 7), Some((key, 5)));
    assert_eq!(bucket(&pallet, 2, key), vec![(7, 5)]);
}

#[test]
fn remapping_follows_the_compaction() {
    let mut pallet = new_test_ext(5);
    let (a, b) = (H160([1; 20]), H160([2; 20]));
    pallet.set_associated_evm_address(1, 4, a, 10);
    pallet.set_associated_evm_address(1, 9, a, 11);
    pallet.set_associated_evm_address(1, 0, b, 12);
    pallet.set_associated_evm_address(2, 4, a, 13);
    let mapping = BTreeMap::from([(0usize, 0usize), (4, 1), (9, 2)]);
    pallet.remap_associated_evm_address_index(1, &mapping);
    assert_eq!(bucket(&pallet, 1, a), vec![(1, 10), (2, 11)]);
    assert_eq!(bucket(&pallet, 1, b), vec![(0, 12)]);
    assert_eq!(bucket(&pallet, 2, a), vec![(4, 13)]);
    assert_eq!(association(&pallet, 1, 4), Some((a, 10)));
}

#[test]
fn looking_up_gives_the_oldest_first() {
    let mut pallet = new_test_ext(5);
    let key = H160([1; 20]);
    for (uid, block) in [(3u16, 30u64), (1, 10), (4, 10), (2, 20)] {
        pallet.set_associated_evm_address(1, uid, key, block);
    }
    assert_eq!(
        pallet.uid_lookup(1, key, 10),
        vec![(1, 10), (4, 10), (2, 20), (3, 30)]
    );
    assert_eq!(pallet.uid_lookup(1, key, 2), vec![(1, 10), (4, 10)]);
    assert_eq!(pallet.uid_lookup(1, key, 0), vec![]);
    assert_eq!(pallet.uid_lookup(2, key, 10), vec![]);
}

#[test]
fn the_rate_limit_counts_from_the_last_association_or_from_the_start() {
    let mut pallet = new_test_ext(RATE_LIMIT - 1);
    assert_eq!(
        pallet.ensure_evm_key_associate_rate_limit(1, 0),
        Err(AssociationError::EvmKeyAssociateRateLimitExceeded)
    );
    pallet.block_number = RATE_LIMIT;
    assert_eq!(pallet.ensure_evm_key_associate_rate_limit(1, 0), Ok(()));
    pallet.set_associated_evm_address(1, 0, H160([1; 20]), 100);
    pallet.block_number = 100 + RATE_LIMIT - 1;
    assert!(pallet.ensure_evm_key_associate_rate_limit(1, 0).is_err());
    pallet.block_number = 100 + RATE_LIMIT;
    assert!(pallet.ensure_evm_key_associate_rate_limit(1, 0).is_ok());
    pallet.block_number = 50;
    assert!(pallet.ensure_evm_key_associate_rate_limit(1, 0).is_err());
}

#[test]
fn migrating_fills_the_buckets_once() {
    let mut pallet = new_test_ext(5);
    let (a, b) = (H160([1; 20]), H160([2; 20]));
    pallet.associated_evm_address.insert((1, 3), (a, 30));
    pallet.associated_evm_address.insert((1, 4), (a, 40));
    pallet.associated_evm_address.insert((2, 3), (b, 50));
    let weight = migrate_associated_evm_address_index(&mut pallet);
    // One read of the flag, two reads and a write for each of three rows, one write of the flag.
    assert_eq!(weight, 3 + 3 * (3 + 3 + 100) + 100);
    assert!(pallet.index_migrated);
    assert_eq!(bucket(&pallet, 1, a), vec![(3, 30), (4, 40)]);
    assert_eq!(bucket(&pallet, 2, b), vec![(3, 50)]);

    pallet.associated_evm_address.insert((1, 5), (b, 60));
    assert_eq!(migrate_associated_evm_address_index(&mut pallet), 3);
    assert_eq!(bucket(&pallet, 1, b), vec![]);
}

#[test]
fn migrating_skips_what_does_not_fit_a_full_address() {
    let mut pallet = new_test_ext(5);
    let key = H160([1; 20]);
    for uid in 0..=MAX_ASSOCIATED_UIDS_PER_EVM_ADDRESS as u16 {
        pallet
            .associated_evm_address
            .insert((1, uid), (key, uid as u64));
    }
    migrate_associated_evm_address_index(&mut pallet);
    let stored = bucket(&pallet, 1, key);
    assert_eq!(stored.len(), MAX_ASSOCIATED_UIDS_PER_EVM_ADDRESS as usize);
    assert!(!stored
        .iter()
        .any(|(uid, _)| *uid == MAX_ASSOCIATED_UIDS_PER_EVM_ADDRESS as u16));
}

#[test]
fn the_table_keeps_its_rows_in_order() {
    let mut table: StorageTable<(u16, u16), u16> = StorageTable::new();
    for (netuid, uid) in [(1, 5), (2, 6), (1, 7), (3, 8)] {
        table.insert((netuid, uid), uid * 10);
    }
    table.insert((2, 6), 61);
    let listed = |table: &StorageTable<(u16, u16), u16>| {
        (0..table.len())
            .map(|i| (*table.row(i).0, *table.row(i).1))
            .collect::<Vec<((u16, u16), u16)>>()
    };
    assert_eq!(
        listed(&table),
        vec![((1, 5), 50), ((2, 6), 61), ((1, 7), 70), ((3, 8), 80)]
    );
    assert_eq!(table.take(&(2, 6)), Some(61));
    assert_eq!(table.take(&(2, 6)), None);
    table.insert((2, 6), 62);
    assert_eq!(
        listed(&table),
        vec![((1, 5), 50), ((1, 7), 70), ((3, 8), 80), ((2, 6), 62)]
    );
    table.clear_prefix(1);
    assert_eq!(listed(&table), vec![((3, 8), 80), ((2, 6), 62)]);
}

#[test]
fn dissociating_undoes_associating() {
    let mut pallet = new_test_ext(5);
    let (a, b) = (H160([1; 20]), H160([2; 20]));
    for (uid, block) in [(3u16, 30u64), (1, 10), (2, 20)] {
        pallet.set_associated_evm_address(1, uid, a, block);
    }
    let before = bucket(&pallet, 1, a);
    for key in [a, b] {
        pallet.set_associated_evm_address(1, 9, key, 90);
        pallet.remove_associated_evm_address(1, 9);
        assert_eq!(bucket(&pallet, 1, a), before);
        assert!(pallet.associated_uids_by_evm_address.get(&(1, b)).is_none());
        assert_eq!(association(&pallet, 1, 9), None);
    }
}

#[test]
fn dissociating_undoes_associating_beside_entries_without_an_association() {
    let mut pallet = new_test_ext(5);
    let key = H160([1; 20]);
    // Another neuron is listed twice, and has no association.
    let before = vec![(4, 40), (4, 41)];
    pallet
        .associated_uids_by_evm_address
        .insert((1, key), before.clone());
    pallet.set_associated_evm_address(1, 9, key, 90);
    pallet.remove_associated_evm_address(1, 9);
    assert_eq!(bucket(&pallet, 1, key), before);
    assert_eq!(association(&pallet, 1, 9), None);
}

#[test]
fn a_new_index_is_empty() {
    let pallet = new_test_ext(5);
    assert_eq!(pallet.associated_evm_address.len(), 0);
    assert_eq!(pallet.associated_uids_by_evm_address.len(), 0);
}

#[test]
fn migrating_into_filled_buckets_keeps_them_and_adds_the_rest() {
    let mut pallet = new_test_ext(5);
    let key = H160([1; 20]);
    for (uid, block) in [(3u16, 30u64), (4, 40)] {
        pallet.associated_evm_address.insert((1, uid), (key, block));
    }
    // One neuron is listed with an older block, and one that has no association is listed too.
    pallet
        .associated_uids_by_evm_address
        .insert((1, key), vec![(8, 80), (4, 1)]);
    migrate_associated_evm_address_index(&mut pallet);
    assert_eq!(bucket(&pallet, 1, key), vec![(8, 80), (4, 40), (3, 30)]);
}

#[test]
fn migrating_an_index_that_agrees_changes_nothing() {
    let mut pallet = new_test_ext(5);
    let key = H160([1; 20]);
    for (uid, block) in [(3u16, 30u64), (1, 10), (2, 20)] {
        pallet.set_associated_evm_address(1, uid, key, block);
    }
    let before = bucket(&pallet, 1, key);
    migrate_associated_evm_address_index(&mut pallet);
    assert_eq!(bucket(&pallet, 1, key), before);
}
