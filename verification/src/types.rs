//! Plain value types shared by the whole pipeline: 20-byte account/contract
//! addresses, 32-byte transaction hashes, and 256-bit amounts kept as four
//! 64-bit limbs.

use vstd::prelude::*;

verus! {

/// A 20-byte account or contract address.
#[derive(Clone, Copy, Debug, PartialEq, Eq)]
pub struct Address {
    pub bytes: [u8; 20],
}

impl View for Address {
    type V = Seq<u8>;

    open spec fn view(&self) -> Seq<u8> {
        self.bytes@
    }
}

impl Address {
    pub fn new(bytes: [u8; 20]) -> (r: Address)
        ensures
            r@ == bytes@,
    {
        Address { bytes }
    }

    /// Byte-wise equality of two addresses.
    pub fn same(&self, other: &Address) -> (r: bool)
        ensures
            r == (self@ == other@),
    {
        let mut i: usize = 0;
        while i < 20
            invariant
                i <= 20,
                forall|j: int| 0 <= j < i ==> self.bytes@[j] == other.bytes@[j],
            decreases 20 - i,
        {
            if self.bytes[i] != other.bytes[i] {
                assert(self@ != other@);
                return false;
            }
            i += 1;
        }
        proof {
            assert(self@ =~= other@);
        }
        true
    }
}

/// A 32-byte transaction hash.
#[derive(Clone, Copy, Debug, PartialEq, Eq)]
pub struct TxHash {
    pub bytes: [u8; 32],
}

impl View for TxHash {
    type V = Seq<u8>;

    open spec fn view(&self) -> Seq<u8> {
        self.bytes@
    }
}

impl TxHash {
    pub fn new(bytes: [u8; 32]) -> (r: TxHash)
        ensures
            r@ == bytes@,
    {
        TxHash { bytes }
    }

    /// Byte-wise equality of two transaction hashes.
    pub fn same(&self, other: &TxHash) -> (r: bool)
        ensures
            r == (self@ == other@),
    {
        let mut i: usize = 0;
        while i < 32
            invariant
                i <= 32,
                forall|j: int| 0 <= j < i ==> self.bytes@[j] == other.bytes@[j],
            decreases 32 - i,
        {
            if self.bytes[i] != other.bytes[i] {
                assert(self@ != other@);
                return false;
            }
            i += 1;
        }
        proof {
            assert(self@ =~= other@);
        }
        true
    }
}

/// A 256-bit unsigned amount, little-endian 64-bit limbs.
#[derive(Clone, Copy, Debug, PartialEq, Eq)]
pub struct Uint256 {
    pub limbs: [u64; 4],
}

impl Uint256 {
    /// The mathematical value the four limbs stand for.
    pub open spec fn spec_value(&self) -> nat {
        self.limbs@[0] as nat + self.limbs@[1] as nat * 0x1_0000_0000_0000_0000
            + self.limbs@[2] as nat * 0x1_0000_0000_0000_0000_0000_0000_0000_0000
            + self.limbs@[3] as nat
            * 0x1_0000_0000_0000_0000_0000_0000_0000_0000_0000_0000_0000_0000
    }

    /// Embed a 128-bit value.
    pub fn from_u128(v: u128) -> (r: Uint256)
        ensures
            r.spec_value() == v,
    {
        let lo: u64 = #[verifier::truncate] ((v & 0xffff_ffff_ffff_ffff) as u64);
        let hi: u64 = #[verifier::truncate] ((v >> 64) as u64);
        let limbs: [u64; 4] = [lo, hi, 0u64, 0u64];
        proof {
            assert(v == (lo as u128) + (hi as u128) * 0x1_0000_0000_0000_0000) by (bit_vector)
                requires
                    lo == #[verifier::truncate] ((v & 0xffff_ffff_ffff_ffff) as u64),
                    hi == #[verifier::truncate] ((v >> 64) as u64),
            ;
            assert(limbs@[0] == lo && limbs@[1] == hi && limbs@[2] == 0u64 && limbs@[3] == 0u64);
        }
        Uint256 { limbs }
    }
}

} // verus!
