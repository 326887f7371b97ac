//! The library's values against those of the crates it stands beside.

use alloy_primitives::keccak256;
use alloy_sol_types::SolValue;
use node_db::abi::{decode_word, decode_words, DecodeError};
use node_db::account::{AccountInfo, AccountState, Bytecode};
use node_db::commit::{Account, ACCOUNT_CREATED, ACCOUNT_SELF_DESTRUCTED, ACCOUNT_TOUCHED};
use node_db::hashing::mapping_slot;
use node_db::primitives::{Address, B256, U256};
use revm::primitives::KECCAK_EMPTY;
use revm::state::AccountStatus;

fn halves(hash: alloy_primitives::B256) -> (u128, u128) {
    let (hi, lo) = hash.split_at(16);
    (u128::from_be_bytes(hi.try_into().unwrap()), u128::from_be_bytes(lo.try_into().unwrap()))
}

fn slot_halves(account: Address, base: U256) -> (u128, u128) {
    let mut address = [0u8; 20];
    address[..4].copy_from_slice(&account.hi.to_be_bytes());
    address[4..].copy_from_slice(&account.lo.to_be_bytes());
    let mut word = [0u8; 32];
    word[..16].copy_from_slice(&base.hi.to_be_bytes());
    word[16..].copy_from_slice(&base.lo.to_be_bytes());
    let key = (
        alloy_primitives::Address::from(address),
        alloy_primitives::U256::from_be_bytes(word),
    );
    halves(keccak256(key.abi_encode()))
}

#[test]
fn empty_code_has_the_empty_hash() {
    let empty = B256::keccak_empty();
    assert_eq!((empty.hi, empty.lo), halves(KECCAK_EMPTY));
    assert_eq!((empty.hi, empty.lo), halves(keccak256([])));
    assert_eq!(Bytecode::default().hash_slow(), empty);
    assert!(Bytecode::default().is_empty());
}

#[test]
fn code_hash_is_that_of_its_bytes() {
    for bytes in [vec![0u8], vec![0x60, 0x00, 0x5b], vec![0xef, 0x01, 0x00], vec![7; 1000]] {
        let hash = Bytecode { bytes: bytes.clone() }.hash_slow();
        assert_eq!((hash.hi, hash.lo), halves(keccak256(&bytes)));
        let code = revm::bytecode::Bytecode::new_legacy(bytes.into());
        assert_eq!((hash.hi, hash.lo), halves(code.hash_slow()));
    }
}

#[test]
fn code_hash_of_one_stop() {
    // The Keccak-256 hash of a single zero byte.
    let hash = Bytecode { bytes: vec![0] }.hash_slow();
    assert_eq!(hash.hi, 0xbc36789e7a1e281436464229828f817d);
    assert_eq!(hash.lo, 0x6612f7b477d66591ff96a9e064bcc98a);
}

#[test]
fn delegated_code_has_the_same_hash() {
    let target = alloy_primitives::Address::from([9u8; 20]);
    let code = revm::bytecode::Bytecode::new_eip7702(target);
    let hash = Bytecode { bytes: code.original_bytes().to_vec() }.hash_slow();
    assert_eq!((hash.hi, hash.lo), halves(code.hash_slow()));
}

#[test]
fn mapping_slot_is_the_hash_of_the_encoded_key() {
    for account in [
        Address { hi: 0, lo: 0 },
        Address { hi: 0, lo: 1 },
        Address { hi: 0xd8da6bf2, lo: 0x6964af9d7eed9e03e53415d37aa96045 },
    ] {
        for base in [U256 { hi: 0, lo: 0 }, U256 { hi: 0, lo: 3 }, U256 { hi: 1, lo: u128::MAX }] {
            let slot = mapping_slot(account, base);
            assert_eq!((slot.hi, slot.lo), slot_halves(account, base));
        }
    }
}

#[test]
fn mapping_slot_of_the_first_entry() {
    // The Keccak-256 hash of sixty-four zero bytes.
    let slot = mapping_slot(Address { hi: 0, lo: 0 }, U256 { hi: 0, lo: 0 });
    assert_eq!(slot.hi, 0xad3228b676f7d3cd4284a5443f17f196);
    assert_eq!(slot.lo, 0x2b36e491b30a40b2405849e597ba5fb5);
}

#[test]
fn word_is_decoded_from_the_first_bytes() {
    let mut output = vec![0u8; 32];
    output[0] = 1;
    output[15] = 2;
    output[16] = 3;
    output[31] = 4;
    let word = U256 { hi: (1 << 120) + 2, lo: (3 << 120) + 4 };
    assert_eq!(decode_word(&output), Some(word));
    output.extend([9, 9]);
    assert_eq!(decode_word(&output), Some(word));
    let theirs = alloy_primitives::U256::abi_decode(&output).unwrap();
    assert_eq!((word.hi, word.lo), halves(theirs.into()));
}

#[test]
fn short_output_holds_no_word() {
    assert_eq!(decode_word(&[]), None);
    assert_eq!(decode_word(&[1; 31]), None);
    assert!(alloy_primitives::U256::abi_decode(&[1; 31]).is_err());
    assert_eq!(decode_word(&[0xff; 32]), Some(U256 { hi: u128::MAX, lo: u128::MAX }));
}

#[test]
fn decoding_undoes_encoding() {
    for value in [0u128, 1, 255, 256, u128::MAX] {
        let theirs = alloy_primitives::U256::from(value);
        assert_eq!(decode_word(&theirs.abi_encode()), Some(U256 { hi: 0, lo: value }));
    }
}

/// A word with the given number.
fn encoded(value: u128) -> Vec<u8> {
    alloy_primitives::U256::from(value).abi_encode()
}

#[test]
fn list_of_words_is_decoded() {
    for values in [vec![], vec![7u128], vec![1, u128::MAX, 3]] {
        let theirs: Vec<alloy_primitives::U256> =
            values.iter().map(|value| alloy_primitives::U256::from(*value)).collect();
        let ours: Vec<U256> = values.iter().map(|value| U256 { hi: 0, lo: *value }).collect();
        assert_eq!(decode_words(&theirs.abi_encode()), Ok(ours));
    }
    let highest = vec![alloy_primitives::U256::MAX];
    let ours = vec![U256 { hi: u128::MAX, lo: u128::MAX }];
    assert_eq!(decode_words(&highest.abi_encode()), Ok(ours));
}

#[test]
fn list_may_start_anywhere_and_end_early() {
    // One word between, a list of one word at byte 64, and bytes after it.
    let mut output = [encoded(64), encoded(5), encoded(1), encoded(8)].concat();
    output.extend([1, 2, 3]);
    assert_eq!(decode_words(&output), Ok(vec![U256 { hi: 0, lo: 8 }]));
    // The list may even start at the first word: it then says its own length.
    assert_eq!(decode_words(&encoded(0)), Ok(vec![]));
}

#[test]
fn bytes_without_a_list_are_malformed() {
    let malformed = [
        vec![],
        vec![0; 31],
        encoded(1),
        encoded(32),
        encoded(u128::MAX),
        [encoded(32), encoded(1)].concat(),
        [encoded(32), encoded(2), encoded(9)].concat(),
        [encoded(32), encoded(u128::MAX), encoded(9)].concat(),
        [encoded(32), encoded(1), vec![0; 31]].concat(),
        vec![0xff; 96],
    ];
    for output in malformed {
        assert!(<Vec<alloy_primitives::U256>>::abi_decode(&output).is_err());
        assert_eq!(decode_words(&output), Err(DecodeError::Malformed));
    }
}

#[test]
fn status_flags_are_those_of_execution() {
    assert_eq!(ACCOUNT_CREATED, AccountStatus::Created.bits());
    assert_eq!(ACCOUNT_SELF_DESTRUCTED, AccountStatus::SelfDestructed.bits());
    assert_eq!(ACCOUNT_TOUCHED, AccountStatus::Touched.bits());
    for status in 0u8..32 {
        let ours = Account { info: AccountInfo::default(), storage: vec![], status };
        let theirs = revm::state::Account {
            status: AccountStatus::from_bits(status).unwrap(),
            ..Default::default()
        };
        assert_eq!(ours.is_touched(), theirs.is_touched());
        assert_eq!(ours.is_created(), theirs.is_created());
        assert_eq!(ours.is_selfdestructed(), theirs.is_selfdestructed());
    }
}

#[test]
fn default_account_is_that_of_execution() {
    let ours = AccountInfo::default();
    let theirs = revm::state::AccountInfo::default();
    assert!(theirs.balance.is_zero());
    assert_eq!(ours.balance, U256 { hi: 0, lo: 0 });
    assert_eq!(ours.nonce, theirs.nonce);
    assert_eq!((ours.code_hash.hi, ours.code_hash.lo), halves(theirs.code_hash));
    assert_eq!(ours.code.unwrap().bytes, theirs.code.unwrap().original_bytes().to_vec());
}

#[test]
fn account_states_agree_with_those_of_execution() {
    assert_eq!(revm::database::AccountState::default(), revm::database::AccountState::None);
    assert_eq!(AccountState::default(), AccountState::Untouched);
    let pairs = [
        (AccountState::NotExisting, revm::database::AccountState::NotExisting),
        (AccountState::Touched, revm::database::AccountState::Touched),
        (AccountState::StorageCleared, revm::database::AccountState::StorageCleared),
        (AccountState::Untouched, revm::database::AccountState::None),
    ];
    for (ours, theirs) in pairs {
        assert_eq!(ours.is_storage_cleared(), theirs.is_storage_cleared());
    }
}
