//! Little-endian integers as byte sequences.
//!
//! Every multi-byte integer on the wire is little-endian. The model is a pair
//! of recursive functions on naturals and byte sequences; the executable
//! helpers append to and read from buffers and are proved against the model.

use vstd::prelude::*;

verus! {

/// `256^exponent`.
pub open spec fn pow256(exponent: nat) -> nat
    decreases exponent,
{
    if exponent == 0 {
        1
    } else {
        256 * pow256((exponent - 1) as nat)
    }
}

/// The `width` low-order bytes of `value`, least significant first.
pub open spec fn le_bytes(value: nat, width: nat) -> Seq<u8>
    decreases width,
{
    if width == 0 {
        Seq::empty()
    } else {
        seq![(value % 256) as u8] + le_bytes(value / 256, (width - 1) as nat)
    }
}

/// The natural number that `bytes` spell, least significant byte first.
pub open spec fn le_value(bytes: Seq<u8>) -> nat
    decreases bytes.len(),
{
    if bytes.len() == 0 {
        0
    } else {
        bytes[0] as nat + 256 * le_value(bytes.drop_first())
    }
}

/// The first powers of 256, as far as a `u64` reaches.
pub proof fn lemma_pow256_values()
    ensures
        pow256(0) == 1,
        pow256(1) == 0x100,
        pow256(2) == 0x1_0000,
        pow256(3) == 0x100_0000,
        pow256(4) == 0x1_0000_0000,
        pow256(5) == 0x100_0000_0000,
        pow256(6) == 0x1_0000_0000_0000,
        pow256(7) == 0x100_0000_0000_0000,
        pow256(8) == 0x1_0000_0000_0000_0000,
{
    reveal_with_fuel(pow256, 9);
}

/// Powers of 256 are positive and grow with the exponent.
pub proof fn lemma_pow256_monotonic(low: nat, high: nat)
    requires
        low <= high,
    ensures
        0 < pow256(low) <= pow256(high),
    decreases high,
{
    if high == 0 {
    } else if low == high {
        lemma_pow256_monotonic((low - 1) as nat, (high - 1) as nat);
    } else {
        lemma_pow256_monotonic(low, (high - 1) as nat);
    }
}

/// An encoding has exactly the width that was asked for.
pub proof fn lemma_le_bytes_len(value: nat, width: nat)
    ensures
        le_bytes(value, width).len() == width,
    decreases width,
{
    if width > 0 {
        lemma_le_bytes_len(value / 256, (width - 1) as nat);
    }
}

/// Byte sequences spell numbers below `256^len`.
pub proof fn lemma_le_value_bound(bytes: Seq<u8>)
    ensures
        le_value(bytes) < pow256(bytes.len()),
    decreases bytes.len(),
{
    if bytes.len() > 0 {
        lemma_le_value_bound(bytes.drop_first());
    }
}

/// Decoding an encoding gives the value back, reduced modulo `256^width`.
pub proof fn lemma_le_value_of_bytes(value: nat, width: nat)
    ensures
        le_value(le_bytes(value, width)) == value % pow256(width),
    decreases width,
{
    if width == 0 {
    } else {
        let rest = le_bytes(value / 256, (width - 1) as nat);
        let all = le_bytes(value, width);
        assert(all.drop_first() =~= rest);
        lemma_le_value_of_bytes(value / 256, (width - 1) as nat);
        let p = pow256((width - 1) as nat);
        lemma_pow256_monotonic(0, (width - 1) as nat);
        lemma_mod_of_shifted(value, p);
    }
}

/// `value % (256 * p)` splits into its lowest byte and the rest.
proof fn lemma_mod_of_shifted(value: nat, p: nat)
    requires
        p > 0,
    ensures
        value % (256 * p) == value % 256 + 256 * ((value / 256) % p),
{
    let q = value / 256;
    let r = value % 256;
    let qq = q / p;
    let qr = q % p;
    assert(value == 256 * q + r);
    assert(q == p * qq + qr) by (nonlinear_arith)
        requires
            p > 0,
            qq == q / p,
            qr == q % p,
    ;
    assert(0 <= qr < p) by (nonlinear_arith)
        requires
            p > 0,
            qr == q % p,
    ;
    assert(value == (256 * p) * qq + (r + 256 * qr)) by (nonlinear_arith)
        requires
            value == 256 * q + r,
            q == p * qq + qr,
    ;
    assert(0 <= r + 256 * qr < 256 * p) by (nonlinear_arith)
        requires
            0 <= r < 256,
            0 <= qr < p,
    ;
    vstd::arithmetic::div_mod::lemma_fundamental_div_mod_converse(
        value as int,
        (256 * p) as int,
        qq as int,
        (r + 256 * qr) as int,
    );
}

/// A value that fits in `width` bytes survives encoding and decoding.
pub proof fn lemma_le_roundtrip_value(value: nat, width: nat)
    requires
        value < pow256(width),
    ensures
        le_value(le_bytes(value, width)) == value,
{
    lemma_le_value_of_bytes(value, width);
    vstd::arithmetic::div_mod::lemma_small_mod(value, pow256(width));
}

/// Encoding what a byte sequence spells, at its own length, gives it back.
pub proof fn lemma_le_roundtrip_bytes(bytes: Seq<u8>)
    ensures
        le_bytes(le_value(bytes), bytes.len()) == bytes,
    decreases bytes.len(),
{
    if bytes.len() == 0 {
        assert(le_bytes(le_value(bytes), 0) =~= bytes);
    } else {
        let tail = bytes.drop_first();
        let value = le_value(bytes);
        lemma_le_roundtrip_bytes(tail);
        assert(value % 256 == bytes[0] as nat);
        assert(value / 256 == le_value(tail));
        assert(le_bytes(value, bytes.len()) =~= bytes);
    }
}

/// Appends the `width` low-order bytes of `value` to `buffer`, least
/// significant first.
pub fn put_le(buffer: &mut Vec<u8>, value: u64, width: usize)
    ensures
        final(buffer)@ == old(buffer)@ + le_bytes(value as nat, width as nat),
{
    let mut rest: u64 = value;
    let mut done: usize = 0;
    while done < width
        invariant
            done <= width,
            old(buffer)@ + le_bytes(value as nat, width as nat) == buffer@ + le_bytes(
                rest as nat,
                (width - done) as nat,
            ),
        decreases width - done,
    {
        let ghost before = buffer@;
        let low: u8 = (rest % 256) as u8;
        buffer.push(low);
        proof {
            let tail = le_bytes((rest / 256) as nat, (width - done - 1) as nat);
            assert(le_bytes(rest as nat, (width - done) as nat) == seq![low] + tail);
            assert(before + (seq![low] + tail) =~= before.push(low) + tail);
        }
        rest = rest / 256;
        done = done + 1;
    }
    assert(buffer@ + le_bytes(rest as nat, 0) =~= buffer@);
}

/// Reads the little-endian integer that occupies `width` bytes of `bytes`
/// from `offset` on.
pub fn get_le(bytes: &[u8], offset: usize, width: usize) -> (value: u64)
    requires
        width <= 8,
        offset + width <= bytes@.len(),
    ensures
        value as nat == le_value(bytes@.subrange(offset as int, offset + width)),
{
    let total: usize = bytes.len();
    let mut value: u64 = 0;
    let mut left: usize = width;
    proof {
        lemma_pow256_values();
    }
    while left > 0
        invariant
            left <= width <= 8,
            offset + width <= total == bytes@.len(),
            value as nat == le_value(bytes@.subrange(offset + left, offset + width)),
            value < pow256((width - left) as nat),
        decreases left,
    {
        left = left - 1;
        let byte: u8 = bytes[offset + left];
        proof {
            let shorter = bytes@.subrange(offset + left + 1, offset + width);
            let longer = bytes@.subrange(offset + left, offset + width);
            assert(longer.drop_first() =~= shorter);
            assert(longer[0] == byte);
            lemma_le_value_bound(longer);
            lemma_pow256_monotonic((width - left) as nat, 8);
            lemma_pow256_values();
        }
        value = value * 256 + byte as u64;
    }
    value
}

} // verus!
