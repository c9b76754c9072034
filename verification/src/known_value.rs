//! The dCBOR encoding of a known value: tag 40000 around its number.
use vstd::prelude::*;

verus! {

/// The dCBOR head of an unsigned number `n`: the number itself below 24,
/// otherwise a marker for its width followed by its bytes, most significant
/// first, in the fewest of 1, 2, 4 or 8 bytes.
pub open spec fn unsigned_head(n: u64) -> Seq<u8> {
    if n < 24 {
        seq![n as u8]
    } else if n <= 0xff {
        seq![0x18u8, n as u8]
    } else if n <= 0xffff {
        seq![0x19u8, (n >> 8u64) as u8, n as u8]
    } else if n <= 0xffff_ffff {
        seq![0x1au8, (n >> 24u64) as u8, (n >> 16u64) as u8, (n >> 8u64) as u8, n as u8]
    } else {
        seq![
            0x1bu8,
            (n >> 56u64) as u8,
            (n >> 48u64) as u8,
            (n >> 40u64) as u8,
            (n >> 32u64) as u8,
            (n >> 24u64) as u8,
            (n >> 16u64) as u8,
            (n >> 8u64) as u8,
            n as u8,
        ]
    }
}

/// The dCBOR encoding of the known value `value`: the head of tag 40000
/// (`d9 9c 40`) followed by the number.
pub open spec fn known_value_cbor(value: u64) -> Seq<u8> {
    seq![0xd9u8, 0x9cu8, 0x40u8] + unsigned_head(value)
}

/// Encodes the known value `value` in dCBOR.
pub fn encode_known_value(value: u64) -> (r: Vec<u8>)
    ensures
        r@ == known_value_cbor(value),
{
    let n = value;
    let head: Vec<u8> = if n < 24 {
        vec![n as u8]
    } else if n <= 0xff {
        vec![0x18u8, n as u8]
    } else if n <= 0xffff {
        vec![0x19u8, (n >> 8u64) as u8, n as u8]
    } else if n <= 0xffff_ffff {
        vec![0x1au8, (n >> 24u64) as u8, (n >> 16u64) as u8, (n >> 8u64) as u8, n as u8]
    } else {
        vec![
            0x1bu8,
            (n >> 56u64) as u8,
            (n >> 48u64) as u8,
            (n >> 40u64) as u8,
            (n >> 32u64) as u8,
            (n >> 24u64) as u8,
            (n >> 16u64) as u8,
            (n >> 8u64) as u8,
            n as u8,
        ]
    };
    let mut r: Vec<u8> = vec![0xd9u8, 0x9cu8, 0x40u8];
    let mut h = head;
    r.append(&mut h);
    assert(r@ =~= known_value_cbor(value));
    r
}

} // verus!
