//! Solidity's encoding of fixed-width values, as `alloy_sol_types` computes it.

use vstd::prelude::*;

use crate::primitives::{Address, U256};

verus! {

/// The lowest `len` bytes of a number, most significant byte first.
pub open spec fn be_bytes(value: nat, len: nat) -> Seq<u8>
    decreases len,
{
    if len == 0 {
        Seq::empty()
    } else {
        be_bytes(value / 256, (len - 1) as nat).push((value % 256) as u8)
    }
}

/// The number that bytes stand for, most significant byte first.
pub open spec fn be_value(bytes: Seq<u8>) -> nat
    decreases bytes.len(),
{
    if bytes.len() == 0 {
        0
    } else {
        be_value(bytes.drop_last()) * 256 + bytes.last() as nat
    }
}

/// Encodes an address and a word with `SolValue::abi_encode` of `alloy_sol_types`. The contract
/// claims two 32-byte big-endian words, the address first.
#[verifier::external_body]
pub(crate) fn abi_encode(account: Address, word: U256) -> (res: Vec<u8>)
    ensures
        res@ == be_bytes(account.value(), 32) + be_bytes(word.value(), 32),
{
    let mut padded = [0u8; 20];
    padded[..4].copy_from_slice(&account.hi.to_be_bytes());
    padded[4..].copy_from_slice(&account.lo.to_be_bytes());
    let mut bytes = [0u8; 32];
    bytes[..16].copy_from_slice(&word.hi.to_be_bytes());
    bytes[16..].copy_from_slice(&word.lo.to_be_bytes());
    let key = (
        alloy_primitives::Address::from(padded),
        alloy_primitives::U256::from_be_bytes(bytes),
    );
    alloy_sol_types::SolValue::abi_encode(&key)
}

/// Decodes a word with `SolValue::abi_decode` of `alloy_sol_types`. The contract claims that the
/// first 32 bytes are read as a big-endian number, that further bytes are not looked at, and that
/// decoding fails just where there are fewer.
#[verifier::external_body]
fn abi_decode(data: &[u8]) -> (res: Option<U256>)
    ensures
        match res {
            Some(word) => data@.len() >= 32 && word.value() == be_value(data@.take(32)),
            None => data@.len() < 32,
        },
{
    let word: alloy_primitives::U256 = alloy_sol_types::SolValue::abi_decode(data).ok()?;
    let bytes: [u8; 32] = word.to_be_bytes();
    let (hi, lo) = bytes.split_at(16);
    Some(
        U256 {
            hi: u128::from_be_bytes(hi.try_into().unwrap()),
            lo: u128::from_be_bytes(lo.try_into().unwrap()),
        },
    )
}

/// The word that the output of a call starts with, or `None` if the output is shorter than a word.
pub fn decode_word(output: &[u8]) -> (res: Option<U256>)
    ensures
        match res {
            Some(word) => output@.len() >= 32 && word.value() == be_value(output@.take(32)),
            None => output@.len() < 32,
        },
{
    abi_decode(output)
}

/// Why a list of words could not be decoded.
#[derive(Clone, Copy, PartialEq, Eq, Structural, Debug)]
pub enum DecodeError {
    /// The bytes do not hold a list of words, or one that is too long.
    Malformed,
    /// There was no memory for the list.
    OutOfMemory,
}

/// The number that the 32 bytes at `at` stand for.
pub open spec fn word_at(data: Seq<u8>, at: int) -> nat {
    be_value(data.subrange(at, at + 32))
}

/// The length of the list of words that bytes hold. The first word says where the list starts, and
/// the word there how many words follow it.
pub open spec fn list_len(data: Seq<u8>) -> nat {
    word_at(data, word_at(data, 0) as int)
}

/// The number at position `i` of the list of words that bytes hold.
pub open spec fn list_word(data: Seq<u8>, i: int) -> nat {
    word_at(data, word_at(data, 0) + 32 + 32 * i)
}

/// The bytes hold a list of words, of at most 2^30 bytes.
pub open spec fn holds_list(data: Seq<u8>) -> bool {
    &&& 32 <= data.len()
    &&& word_at(data, 0) + 32 <= data.len()
    &&& word_at(data, 0) + 32 + 32 * list_len(data) <= data.len()
    &&& 32 * list_len(data) <= 0x4000_0000
}

/// `words` is the list of words that bytes hold.
pub open spec fn is_list(data: Seq<u8>, words: Seq<U256>) -> bool {
    &&& words.len() == list_len(data)
    &&& forall|i: int| 0 <= i < words.len() ==> (#[trigger] words[i]).value() == list_word(data, i)
}

/// Decodes a list of words with `SolValue::abi_decode` of `alloy_sol_types`. The contract claims
/// which words are read, that decoding fails as malformed just where the bytes hold no list or one
/// beyond the decoder's memory limit, and that the list may else only want for memory. When memory
/// is wanting is not stated: that is up to the machine.
#[verifier::external_body]
fn abi_decode_list(data: &[u8]) -> (res: Result<Vec<U256>, DecodeError>)
    ensures
        match res {
            Ok(words) => holds_list(data@) && is_list(data@, words@),
            Err(DecodeError::Malformed) => !holds_list(data@),
            Err(DecodeError::OutOfMemory) => holds_list(data@),
        },
{
    let half = |bytes: &[u8]| u128::from_be_bytes(bytes.try_into().unwrap());
    match <Vec<alloy_primitives::U256> as alloy_sol_types::SolValue>::abi_decode(data) {
        Ok(words) => Ok(
            words.iter().map(|word| word.to_be_bytes::<32>()).map(
                |bytes| U256 { hi: half(&bytes[..16]), lo: half(&bytes[16..]) },
            ).collect(),
        ),
        Err(alloy_sol_types::Error::Reserve(_)) => Err(DecodeError::OutOfMemory),
        Err(_) => Err(DecodeError::Malformed),
    }
}

/// The list of words that the output of a call holds.
pub fn decode_words(output: &[u8]) -> (res: Result<Vec<U256>, DecodeError>)
    ensures
        match res {
            Ok(words) => holds_list(output@) && is_list(output@, words@),
            Err(DecodeError::Malformed) => !holds_list(output@),
            Err(DecodeError::OutOfMemory) => holds_list(output@),
        },
{
    abi_decode_list(output)
}

} // verus!
