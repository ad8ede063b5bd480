//! Byte-string building blocks shared by every renderer: appending literal
//! text and decimal integers to an output buffer, with the exact bytes each
//! step appends stated as a spec function.

use vstd::prelude::*;
use vstd::string::StringSliceAdditionalSpecFns;

verus! {

/// ASCII byte of the decimal digit `d` (0..=9).
pub open spec fn digit(d: int) -> u8 {
    (48 + d) as u8
}

/// Decimal representation of `n`, most significant digit first, no padding.
pub open spec fn dec(n: nat) -> Seq<u8>
    decreases n,
{
    if n < 10 {
        seq![digit(n as int)]
    } else {
        dec(n / 10).push(digit((n % 10) as int))
    }
}

/// Decimal representation of a signed integer: a leading `-` when negative.
pub open spec fn signed_dec(v: int) -> Seq<u8> {
    if v < 0 {
        seq![45u8] + dec((-v) as nat)
    } else {
        dec(v as nat)
    }
}

/// The last `width` decimal digits of `n`, zero-padded on the left.
pub open spec fn padded(n: nat, width: nat) -> Seq<u8>
    decreases width,
{
    if width == 0 {
        Seq::empty()
    } else {
        padded(n / 10, (width - 1) as nat).push(digit((n % 10) as int))
    }
}

/// The bytes of a string slice.
pub open spec fn bytes_of(s: &str) -> Seq<u8> {
    s.spec_bytes()
}

/// Appends every byte of `b`.
pub fn push_bytes(out: &mut Vec<u8>, b: &[u8])
    ensures
        final(out)@ == old(out)@ + b@,
{
    let ghost start = out@;
    let mut i: usize = 0;
    while i < b.len()
        invariant
            i <= b@.len(),
            out@ == start + b@.subrange(0, i as int),
        decreases b@.len() - i,
    {
        out.push(b[i]);
        i = i + 1;
        assert(b@.subrange(0, i as int) == b@.subrange(0, (i - 1) as int).push(b@[i - 1]));
    }
    assert(b@.subrange(0, b@.len() as int) == b@);
}

/// Appends the UTF-8 bytes of `s`.
pub fn push_str(out: &mut Vec<u8>, s: &str)
    ensures
        final(out)@ == old(out)@ + bytes_of(s),
{
    push_bytes(out, s.as_bytes());
}

/// Appends one byte.
pub fn push_byte(out: &mut Vec<u8>, b: u8)
    ensures
        final(out)@ == old(out)@.push(b),
{
    out.push(b);
}

/// Appends the decimal representation of `n`.
pub fn push_u64(out: &mut Vec<u8>, n: u64)
    ensures
        final(out)@ == old(out)@ + dec(n as nat),
    decreases n,
{
    let ghost start = out@;
    if n >= 10 {
        push_u64(out, n / 10);
    }
    out.push(48u8 + (n % 10) as u8);
    if n >= 10 {
        assert(out@ == start + dec(n as nat)) by {
            assert(dec(n as nat) == dec((n / 10) as nat).push(digit((n % 10) as int)));
        }
    } else {
        assert(out@ == start + dec(n as nat)) by {
            assert(dec(n as nat) == seq![digit(n as int)]);
        }
    }
}

/// Appends the decimal representation of `v`, with `-` when negative.
pub fn push_i64(out: &mut Vec<u8>, v: i64)
    ensures
        final(out)@ == old(out)@ + signed_dec(v as int),
{
    if v < 0 {
        out.push(45u8);
        let magnitude: u64 = (-(v as i128)) as u64;
        let ghost mid = out@;
        push_u64(out, magnitude);
        assert(out@ == old(out)@ + signed_dec(v as int)) by {
            assert(mid == old(out)@.push(45u8));
            assert(seq![45u8] + dec((-v) as nat) == seq![45u8] + dec(magnitude as nat));
        }
    } else {
        push_u64(out, v as u64);
    }
}

/// Appends exactly `width` digits of `n`, zero-padded on the left.
pub fn push_padded(out: &mut Vec<u8>, n: u64, width: u32)
    ensures
        final(out)@ == old(out)@ + padded(n as nat, width as nat),
    decreases width,
{
    if width > 0 {
        let ghost start = out@;
        push_padded(out, n / 10, width - 1);
        out.push(48u8 + (n % 10) as u8);
        assert(padded(n as nat, width as nat) == padded((n / 10) as nat, (width - 1) as nat).push(
            digit((n % 10) as int),
        ));
    } else {
        assert(padded(n as nat, 0) == Seq::<u8>::empty());
        assert(out@ == old(out)@ + Seq::<u8>::empty());
    }
}

/// `n` in decimal, zero-padded on the left to at least `width` digits.
pub open spec fn zpad(n: nat, width: nat) -> Seq<u8>
    decreases n,
{
    let rest: nat = if width == 0 { 0 } else { (width - 1) as nat };
    if n < 10 {
        Seq::new(rest, |i: int| 48u8).push(digit(n as int))
    } else {
        zpad(n / 10, rest).push(digit((n % 10) as int))
    }
}

/// Appends `n` in decimal, zero-padded to at least `width` digits.
pub fn push_zpad(out: &mut Vec<u8>, n: u64, width: usize)
    ensures
        final(out)@ == old(out)@ + zpad(n as nat, width as nat),
    decreases n,
{
    let ghost start = out@;
    let rest: usize = if width == 0 { 0 } else { width - 1 };
    if n < 10 {
        let mut k: usize = 0;
        while k < rest
            invariant
                k <= rest,
                out@ == start + Seq::new(k as nat, |i: int| 48u8),
            decreases rest - k,
        {
            out.push(48u8);
            k = k + 1;
            assert(out@ =~= start + Seq::new(k as nat, |i: int| 48u8));
        }
    } else {
        push_zpad(out, n / 10, rest);
    }
    out.push(48u8 + (n % 10) as u8);
    assert(out@ =~= start + zpad(n as nat, width as nat));
}

} // verus!
