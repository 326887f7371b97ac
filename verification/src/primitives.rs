//! Fixed-width Ethereum values: addresses, 256-bit words and 256-bit hashes.

use vstd::prelude::*;

use crate::wide_map::WideKey;

verus! {

/// Two to the power of 128, the weight of the upper half of a 256-bit value.
pub open spec fn half_weight() -> nat {
    0x1_0000_0000_0000_0000_0000_0000_0000_0000nat
}

/// A 20-byte account address, read as a big-endian number and split into its upper 4 and lower 16
/// bytes.
#[derive(Clone, Copy, PartialEq, Eq, Structural, Debug, Hash)]
pub struct Address {
    pub hi: u32,
    pub lo: u128,
}

/// A 256-bit unsigned integer, split into its upper and lower 128 bits.
#[derive(Clone, Copy, PartialEq, Eq, Structural, Debug, Hash)]
pub struct U256 {
    pub hi: u128,
    pub lo: u128,
}

/// A 32-byte hash, read as a big-endian number and split into its upper and lower 16 bytes.
#[derive(Clone, Copy, PartialEq, Eq, Structural, Debug, Hash)]
pub struct B256 {
    pub hi: u128,
    pub lo: u128,
}

impl Address {
    /// The address as a number below 2^160.
    pub open spec fn value(self) -> nat {
        self.hi as nat * half_weight() + self.lo as nat
    }
}

impl U256 {
    /// The number itself.
    pub open spec fn value(self) -> nat {
        self.hi as nat * half_weight() + self.lo as nat
    }

    /// The number zero.
    pub fn zero() -> (res: Self)
        ensures
            res == (U256 { hi: 0, lo: 0 }),
            res.value() == 0,
    {
        U256 { hi: 0, lo: 0 }
    }
}

impl B256 {
    /// The hash as a big-endian number.
    pub open spec fn value(self) -> nat {
        self.hi as nat * half_weight() + self.lo as nat
    }

    /// The Keccak-256 hash of the empty byte string, which stands for "no code".
    pub open spec fn spec_keccak_empty() -> Self {
        B256 { hi: 0xc5d2460186f7233c927e7db2dcc703c0, lo: 0xe500b653ca82273b7bfad8045d85a470 }
    }

    /// The Keccak-256 hash of the empty byte string, which stands for "no code".
    #[verifier::when_used_as_spec(spec_keccak_empty)]
    pub fn keccak_empty() -> (res: Self)
        ensures
            res == B256::keccak_empty(),
    {
        B256 { hi: 0xc5d2460186f7233c927e7db2dcc703c0, lo: 0xe500b653ca82273b7bfad8045d85a470 }
    }

    /// The word whose big-endian bytes are the bytes of this hash.
    pub fn to_u256(self) -> (res: U256)
        ensures
            res == (U256 { hi: self.hi, lo: self.lo }),
            res.value() == self.value(),
    {
        U256 { hi: self.hi, lo: self.lo }
    }
}

impl WideKey for Address {
    open spec fn parts(self) -> (u128, u128) {
        (self.hi as u128, self.lo)
    }

    proof fn lemma_parts_injective(self, other: Self) {
    }

    fn split(&self) -> (res: (u128, u128)) {
        (self.hi as u128, self.lo)
    }
}

impl WideKey for U256 {
    open spec fn parts(self) -> (u128, u128) {
        (self.hi, self.lo)
    }

    proof fn lemma_parts_injective(self, other: Self) {
    }

    fn split(&self) -> (res: (u128, u128)) {
        (self.hi, self.lo)
    }
}

impl WideKey for B256 {
    open spec fn parts(self) -> (u128, u128) {
        (self.hi, self.lo)
    }

    proof fn lemma_parts_injective(self, other: Self) {
    }

    fn split(&self) -> (res: (u128, u128)) {
        (self.hi, self.lo)
    }
}

} // verus!
