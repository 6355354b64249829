//! Building blocks for byte strings: appending, and the fixed-width little-endian
//! encoding of unsigned integers.

use vstd::arithmetic::div_mod::{
    lemma_fundamental_div_mod, lemma_fundamental_div_mod_converse, lemma_mod_pos_bound,
};
use vstd::prelude::*;

verus! {

/// The `width` low-order bytes of `value`, least significant byte first.
///
/// Digits of `value` beyond `width` bytes are dropped; a `value` shorter than
/// `width` bytes is padded with zero bytes at the end.
pub open spec fn le_bytes(value: nat, width: nat) -> Seq<u8>
    decreases width,
{
    if width == 0 {
        Seq::empty()
    } else {
        seq![(value % 256) as u8] + le_bytes(value / 256, (width - 1) as nat)
    }
}

/// The number that the bytes `bytes` spell, least significant byte first.
pub open spec fn le_value(bytes: Seq<u8>) -> nat
    decreases bytes.len(),
{
    if bytes.len() == 0 {
        0
    } else {
        bytes[0] as nat + 256 * le_value(bytes.drop_first())
    }
}

/// `256` raised to the power `width`: the number of values that fit in `width` bytes.
pub open spec fn radix(width: nat) -> nat
    decreases width,
{
    if width == 0 {
        1
    } else {
        256 * radix((width - 1) as nat)
    }
}

/// An encoding always has exactly the requested width.
pub proof fn lemma_le_bytes_len(value: nat, width: nat)
    ensures
        le_bytes(value, width).len() == width,
    decreases width,
{
    if width > 0 {
        lemma_le_bytes_len(value / 256, (width - 1) as nat);
    }
}

/// Decoding an encoding gives back the value, reduced to the bytes that were kept.
/// In particular a value that fits in `width` bytes survives the round trip unchanged.
pub proof fn lemma_le_round_trip(value: nat, width: nat)
    ensures
        le_value(le_bytes(value, width)) == value % radix(width),
        value < radix(width) ==> le_value(le_bytes(value, width)) == value,
    decreases width,
{
    if width == 0 {
        assert(le_bytes(value, 0).len() == 0);
    } else {
        let rest = (width - 1) as nat;
        let bytes = le_bytes(value, width);
        lemma_le_bytes_len(value, width);
        lemma_le_round_trip(value / 256, rest);
        assert(bytes.drop_first() =~= le_bytes(value / 256, rest));
        assert(bytes[0] == (value % 256) as u8);
        lemma_radix_positive(rest);
        // Split `value` as `high * (256 * r) + (256 * low + digit)`.
        let r = radix(rest) as int;
        let quotient = value as int / 256;
        let digit = value as int % 256;
        let high = quotient / r;
        let low = quotient % r;
        lemma_fundamental_div_mod(quotient, r);
        lemma_mod_pos_bound(quotient, r);
        assert(value == high * (256 * r) + (256 * low + digit)) by (nonlinear_arith)
            requires
                value == 256 * quotient + digit,
                quotient == r * high + low,
        ;
        lemma_fundamental_div_mod_converse(value as int, 256 * r, high, 256 * low + digit);
    }
}

/// Every radix is at least one.
pub proof fn lemma_radix_positive(width: nat)
    ensures
        radix(width) > 0,
    decreases width,
{
    if width > 0 {
        lemma_radix_positive((width - 1) as nat);
    }
}

/// Appends the `width`-byte little-endian encoding of `value` to `out`.
pub fn push_le(out: &mut Vec<u8>, value: u64, width: usize)
    ensures
        final(out)@ == old(out)@ + le_bytes(value as nat, width as nat),
{
    let mut rest: u64 = value;
    let mut written: usize = 0;
    while written < width
        invariant
            written <= width,
            old(out)@ + le_bytes(value as nat, width as nat) == out@ + le_bytes(
                rest as nat,
                (width - written) as nat,
            ),
        decreases width - written,
    {
        let low: u8 = (rest % 256) as u8;
        proof {
            let tail = le_bytes(rest as nat / 256, (width - written - 1) as nat);
            assert(le_bytes(rest as nat, (width - written) as nat) == seq![low] + tail);
            assert(out@ + (seq![low] + tail) =~= out@.push(low) + tail);
        }
        out.push(low);
        rest = rest / 256;
        written = written + 1;
    }
    assert(out@ + le_bytes(rest as nat, 0) =~= out@);
}

/// Appends `bytes` to `out`.
pub fn push_bytes(out: &mut Vec<u8>, bytes: &[u8])
    ensures
        final(out)@ == old(out)@ + bytes@,
{
    let mut copied: usize = 0;
    while copied < bytes.len()
        invariant
            copied <= bytes.len(),
            out@ == old(out)@ + bytes@.take(copied as int),
        decreases bytes.len() - copied,
    {
        out.push(bytes[copied]);
        copied = copied + 1;
        assert(out@ =~= old(out)@ + bytes@.take(copied as int));
    }
    assert(bytes@.take(copied as int) =~= bytes@);
}

} // verus!
