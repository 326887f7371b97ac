//! Keccak-256, as the outside crates compute it.

use vstd::prelude::*;

use crate::primitives::{Address, B256, U256};

verus! {

/// The Keccak-256 hash of a byte string, as `alloy_primitives::keccak256` computes it.
pub uninterp spec fn keccak256_of(data: Seq<u8>) -> B256;

/// The hash under which code is known: `KECCAK_EMPTY` where there is no code, else the Keccak-256
/// hash of the code's bytes.
pub open spec fn code_hash_of(code: Seq<u8>) -> B256 {
    if code.len() == 0 {
        B256::keccak_empty()
    } else {
        keccak256_of(code)
    }
}

/// Hashes a byte string with `alloy_primitives::keccak256`. The contract names the result, a
/// function of the bytes alone.
#[verifier::external_body]
pub(crate) fn keccak256(data: &[u8]) -> (res: B256)
    ensures
        res == keccak256_of(data@),
{
    let hash = alloy_primitives::keccak256(data);
    let (hi, lo) = hash.split_at(16);
    B256 {
        hi: u128::from_be_bytes(hi.try_into().unwrap()),
        lo: u128::from_be_bytes(lo.try_into().unwrap()),
    }
}

/// Hashes code with `revm::bytecode::Bytecode::hash_slow`. The contract claims that code of no
/// bytes hashes to the fixed hash of the empty string, and other code to the Keccak-256 hash of
/// its original bytes.
#[verifier::external_body]
pub(crate) fn hash_slow(code: &[u8]) -> (res: B256)
    ensures
        res == code_hash_of(code@),
{
    let bytes = revm::primitives::Bytes::copy_from_slice(code);
    let hash = revm::bytecode::Bytecode::new_legacy(bytes).hash_slow();
    let (hi, lo) = hash.split_at(16);
    B256 {
        hi: u128::from_be_bytes(hi.try_into().unwrap()),
        lo: u128::from_be_bytes(lo.try_into().unwrap()),
    }
}

/// The storage slot at which a contract keeps the entry of `account` in the mapping that it
/// declares at slot `base`: a token's balance slot, for one.
pub fn mapping_slot(account: Address, base: U256) -> (res: U256)
    ensures
        res == ({
            let hash = keccak256_of(
                crate::abi::be_bytes(account.value(), 32) + crate::abi::be_bytes(base.value(), 32),
            );
            U256 { hi: hash.hi, lo: hash.lo }
        }),
{
    let encoded: Vec<u8> = crate::abi::abi_encode(account, base);
    keccak256(encoded.as_slice()).to_u256()
}

} // verus!
