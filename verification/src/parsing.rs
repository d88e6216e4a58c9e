//! Verified parsing of the textual fields of exported records: decimal
//! numbers, hexadecimal byte strings, and the fixed-width addresses and
//! transaction hashes written in hex.

use vstd::prelude::*;
use vstd::slice::slice_index_get;
use crate::types::Address;
use crate::types::TxHash;

verus! {

/// Is `c` an ASCII decimal digit?
pub open spec fn is_dec_digit(c: u8) -> bool {
    0x30 <= c <= 0x39
}

/// The value of a decimal digit; 0 for anything else.
pub open spec fn digit_val(c: u8) -> nat {
    if is_dec_digit(c) {
        (c - 0x30) as nat
    } else {
        0
    }
}

/// The number a digit string stands for, most significant digit first.
pub open spec fn dec_value(b: Seq<u8>) -> nat
    decreases b.len(),
{
    if b.len() == 0 {
        0
    } else {
        dec_value(b.drop_last()) * 10 + digit_val(b.last())
    }
}

/// A byte string parses as a `u128`: non-empty, all decimal digits, and in
/// range.
pub open spec fn dec_parses(b: Seq<u8>) -> bool {
    &&& b.len() > 0
    &&& forall|i: int| 0 <= i < b.len() ==> is_dec_digit(#[trigger] b[i])
    &&& dec_value(b) <= u128::MAX
}

proof fn lemma_dec_value_mono(b: Seq<u8>, k: int)
    requires
        0 <= k <= b.len(),
    ensures
        dec_value(b) >= dec_value(b.take(k)),
    decreases b.len() - k,
{
    if k == b.len() {
        assert(b.take(k) =~= b);
    } else {
        assert(b.take(k + 1).drop_last() =~= b.take(k));
        assert(dec_value(b.take(k + 1)) == dec_value(b.take(k)) * 10 + digit_val(b[k]));
        lemma_dec_value_mono(b, k + 1);
    }
}

/// Parse a decimal `u128`, most significant digit first: defined exactly
/// for non-empty all-digit strings whose value fits.
pub fn parse_u128(b: &[u8]) -> (r: Option<u128>)
    ensures
        match r {
            Some(v) => dec_parses(b@) && v == dec_value(b@),
            None => !dec_parses(b@),
        },
{
    if b.len() == 0 {
        return None;
    }
    let mut v: u128 = 0;
    let mut i: usize = 0;
    proof {
        assert(b@.take(0) =~= Seq::<u8>::empty());
    }
    while i < b.len()
        invariant
            i <= b@.len(),
            forall|j: int| 0 <= j < i ==> is_dec_digit(#[trigger] b@[j]),
            v == dec_value(b@.take(i as int)),
        decreases b@.len() - i,
    {
        let c = *slice_index_get(b, i);
        proof {
            assert(b@.take(i + 1).drop_last() =~= b@.take(i as int));
            assert(b@.take(i + 1).last() == b@[i as int]);
        }
        if !(0x30 <= c && c <= 0x39) {
            return None;
        }
        let d = (c - 0x30) as u128;
        let step = match v.checked_mul(10) {
            Some(x) => x.checked_add(d),
            None => None,
        };
        match step {
            Some(y) => {
                v = y;
            },
            None => {
                proof {
                    assert(dec_value(b@.take(i + 1)) > u128::MAX);
                    lemma_dec_value_mono(b@, i + 1);
                }
                return None;
            },
        }
        i += 1;
    }
    proof {
        assert(b@.take(b@.len() as int) =~= b@);
    }
    Some(v)
}

/// Is `c` an ASCII hexadecimal digit, either case?
pub open spec fn is_hex_digit(c: u8) -> bool {
    (0x30 <= c <= 0x39) || (0x41 <= c <= 0x46) || (0x61 <= c <= 0x66)
}

/// The value of a hexadecimal digit; 0 for anything else.
pub open spec fn hex_val(c: u8) -> nat {
    if 0x30 <= c <= 0x39 {
        (c - 0x30) as nat
    } else if 0x41 <= c <= 0x46 {
        (c - 0x41 + 10) as nat
    } else if 0x61 <= c <= 0x66 {
        (c - 0x61 + 10) as nat
    } else {
        0
    }
}

/// Every byte is a hexadecimal digit.
pub open spec fn all_hex(b: Seq<u8>) -> bool {
    forall|i: int| 0 <= i < b.len() ==> is_hex_digit(#[trigger] b[i])
}

/// The bytes a hex string stands for, two digits each.
pub open spec fn hex_decoded(b: Seq<u8>) -> Seq<u8> {
    Seq::new((b.len() / 2) as nat, |k: int| (hex_val(b[2 * k]) * 16 + hex_val(b[2 * k + 1])) as u8)
}

/// A byte string parses as hex: even length, all hexadecimal digits.
pub open spec fn hex_parses(b: Seq<u8>) -> bool {
    b.len() % 2 == 0 && all_hex(b)
}

/// The value of one hexadecimal digit, either case.
fn hex_digit(c: u8) -> (r: Option<u8>)
    ensures
        match r {
            Some(v) => is_hex_digit(c) && v == hex_val(c) && v <= 15,
            None => !is_hex_digit(c),
        },
{
    if 0x30 <= c && c <= 0x39 {
        Some(c - 0x30)
    } else if 0x41 <= c && c <= 0x46 {
        Some(c - 0x41 + 10)
    } else if 0x61 <= c && c <= 0x66 {
        Some(c - 0x61 + 10)
    } else {
        None
    }
}

/// Decode a hex string into bytes: defined exactly for even-length
/// all-hex-digit strings.
pub fn hex_decode_bytes(b: &[u8]) -> (r: Option<Vec<u8>>)
    ensures
        match r {
            Some(v) => hex_parses(b@) && v@ == hex_decoded(b@),
            None => !hex_parses(b@),
        },
{
    let n = b.len();
    if n % 2 != 0 {
        return None;
    }
    let mut out: Vec<u8> = Vec::new();
    let mut i: usize = 0;
    while i < n
        invariant
            n == b@.len(),
            n % 2 == 0,
            i % 2 == 0,
            i <= n,
            out@.len() == i / 2,
            forall|j: int| 0 <= j < i ==> is_hex_digit(#[trigger] b@[j]),
            forall|k: int|
                0 <= k < i / 2 ==> #[trigger] out@[k] == (hex_val(b@[2 * k]) * 16 + hex_val(
                    b@[2 * k + 1],
                )) as u8,
        decreases n - i,
    {
        let hi = match hex_digit(*slice_index_get(b, i)) {
            Some(v) => v,
            None => {
                return None;
            },
        };
        let lo = match hex_digit(*slice_index_get(b, i + 1)) {
            Some(v) => v,
            None => {
                return None;
            },
        };
        out.push(hi * 16 + lo);
        i += 2;
    }
    proof {
        assert(out@ =~= hex_decoded(b@));
    }
    Some(out)
}

/// Parse a 40-digit hex string into a 20-byte address.
pub fn parse_address(b: &[u8]) -> (r: Option<Address>)
    ensures
        match r {
            Some(a) => b@.len() == 40 && all_hex(b@) && a@ == hex_decoded(b@),
            None => !(b@.len() == 40 && all_hex(b@)),
        },
{
    if b.len() != 40 {
        return None;
    }
    match hex_decode_bytes(b) {
        Some(v) => {
            let mut arr: [u8; 20] = [0u8; 20];
            let mut k: usize = 0;
            while k < 20
                invariant
                    k <= 20,
                    v@.len() == 20,
                    forall|j: int| 0 <= j < k ==> arr@[j] == v@[j],
                decreases 20 - k,
            {
                arr[k] = v[k];
                k += 1;
            }
            proof {
                assert(arr@ =~= v@);
            }
            Some(Address::new(arr))
        },
        None => None,
    }
}

/// Parse a 64-digit hex string into a 32-byte transaction hash.
pub fn parse_txhash(b: &[u8]) -> (r: Option<TxHash>)
    ensures
        match r {
            Some(h) => b@.len() == 64 && all_hex(b@) && h@ == hex_decoded(b@),
            None => !(b@.len() == 64 && all_hex(b@)),
        },
{
    if b.len() != 64 {
        return None;
    }
    match hex_decode_bytes(b) {
        Some(v) => {
            let mut arr: [u8; 32] = [0u8; 32];
            let mut k: usize = 0;
            while k < 32
                invariant
                    k <= 32,
                    v@.len() == 32,
                    forall|j: int| 0 <= j < k ==> arr@[j] == v@[j],
                decreases 32 - k,
            {
                arr[k] = v[k];
                k += 1;
            }
            proof {
                assert(arr@ =~= v@);
            }
            Some(TxHash::new(arr))
        },
        None => None,
    }
}

} // verus!
