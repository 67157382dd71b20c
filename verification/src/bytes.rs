//! Fixed-width integers in network byte order, the one byte order of the
//! wire format.

use vstd::prelude::*;

verus! {

/// 256 to the power `width`: the number of values that `width` bytes hold.
pub open spec fn radix(width: nat) -> nat
    decreases width,
{
    if width == 0 {
        1
    } else {
        256 * radix((width - 1) as nat)
    }
}

/// The `width` bytes of `value`, most significant first.
pub open spec fn be_bytes(value: nat, width: nat) -> Seq<u8>
    decreases width,
{
    if width == 0 {
        Seq::empty()
    } else {
        be_bytes(value / 256, (width - 1) as nat).push((value % 256) as u8)
    }
}

/// The number that `bytes` spell, most significant byte first.
pub open spec fn be_value(bytes: Seq<u8>) -> nat
    decreases bytes.len(),
{
    if bytes.len() == 0 {
        0
    } else {
        be_value(bytes.drop_last()) * 256 + bytes.last() as nat
    }
}

/// The unsigned number that stands for `value` in `width` bytes (two's
/// complement for a negative one).
pub open spec fn to_unsigned(value: int, width: nat) -> nat {
    if value >= 0 {
        value as nat
    } else {
        (value + radix(width)) as nat
    }
}

/// The signed number that the unsigned `raw` stands for in `width` bytes.
pub open spec fn to_signed(raw: nat, width: nat) -> int {
    if 2 * raw >= radix(width) {
        raw - radix(width)
    } else {
        raw as int
    }
}

/// Whether `value` is in the range of a signed integer of `width` bytes.
pub open spec fn fits_signed(value: int, width: nat) -> bool {
    -(radix(width) as int) <= 2 * value < radix(width)
}

/// The numbers of values that one, two, four and eight bytes hold.
pub proof fn lemma_radix_values()
    ensures
        radix(0) == 1,
        radix(1) == 0x100,
        radix(2) == 0x1_0000,
        radix(4) == 0x1_0000_0000,
        radix(8) == 0x1_0000_0000_0000_0000,
{
    reveal_with_fuel(radix, 9);
}

/// A number is written in as many bytes as its width.
pub proof fn lemma_be_bytes_len(value: nat, width: nat)
    ensures
        be_bytes(value, width).len() == width,
    decreases width,
{
    if width > 0 {
        lemma_be_bytes_len(value / 256, (width - 1) as nat);
    }
}

/// Reading back what was written gives the number again.
pub proof fn lemma_be_roundtrip(value: nat, width: nat)
    requires
        value < radix(width),
    ensures
        be_value(be_bytes(value, width)) == value,
    decreases width,
{
    if width > 0 {
        let rest = be_bytes(value / 256, (width - 1) as nat);
        lemma_be_roundtrip(value / 256, (width - 1) as nat);
        assert(be_bytes(value, width).drop_last() =~= rest);
    }
}

/// What is read from `width` bytes fits in `width` bytes.
pub proof fn lemma_be_value_bound(bytes: Seq<u8>)
    ensures
        be_value(bytes) < radix(bytes.len()),
    decreases bytes.len(),
{
    if bytes.len() > 0 {
        lemma_be_value_bound(bytes.drop_last());
    }
}

/// Writing what was read gives the same bytes again.
pub proof fn lemma_be_canonical(bytes: Seq<u8>)
    ensures
        be_bytes(be_value(bytes), bytes.len()) == bytes,
    decreases bytes.len(),
{
    if bytes.len() > 0 {
        lemma_be_canonical(bytes.drop_last());
        assert(be_bytes(be_value(bytes), bytes.len()) =~= bytes);
    }
}

/// 256 to the power `k`, for a power that fits in 64 bits.
fn radix_of(k: u8) -> (r: u64)
    requires
        k < 8,
    ensures
        r == radix(k as nat),
{
    let mut r: u64 = 1;
    let mut i: u8 = 0;
    proof {
        lemma_radix_values();
    }
    while i < k
        invariant
            i <= k < 8,
            r == radix(i as nat),
            r <= 0x100_0000_0000_0000,
        decreases k - i,
    {
        proof {
            lemma_radix_monotonic((i + 1) as nat, 7);
            reveal_with_fuel(radix, 9);
        }
        r = r * 256;
        i = i + 1;
    }
    r
}

/// Appends the `width` bytes of `value` to `buf`, most significant first.
pub fn put_be(buf: &mut Vec<u8>, value: u64, width: u8)
    requires
        0 < width <= 8,
        value < radix(width as nat),
    ensures
        final(buf)@ == old(buf)@ + be_bytes(value as nat, width as nat),
{
    let mut shift: u8 = width;
    let ghost start = buf@;
    proof {
        lemma_radix_pos(width as nat);
        assert((value as nat) / radix(width as nat) == 0) by {
            vstd::arithmetic::div_mod::lemma_basic_div(value as int, radix(width as nat) as int);
        }
        assert(buf@ =~= start + be_bytes(0, 0));
    }
    while shift > 0
        invariant
            shift <= width <= 8,
            buf@ == start + be_bytes((value as nat) / radix(shift as nat), (width - shift) as nat),
        decreases shift,
    {
        shift = shift - 1;
        let divisor = radix_of(shift);
        proof {
            lemma_radix_pos(shift as nat);
        }
        let byte: u8 = ((value / divisor) % 256) as u8;
        proof {
            lemma_radix_step(value as nat, shift as nat);
        }
        buf.push(byte);
        assert(buf@ =~= start + be_bytes(
            (value as nat) / radix(shift as nat),
            (width - shift) as nat,
        ));
    }
    proof {
        assert(radix(0) == 1);
        assert((value as nat) / 1 == value as nat);
    }
}

/// The number that the `width` bytes of `buf` from `at` on spell.
pub fn get_be(buf: &[u8], at: usize, width: u8) -> (value: u64)
    requires
        0 < width <= 8,
        at + width <= buf@.len(),
    ensures
        value == be_value(buf@.subrange(at as int, at + width)),
{
    let mut value: u64 = 0;
    let mut i: u8 = 0;
    let len = buf.len();
    proof {
        assert(buf@.subrange(at as int, at as int).len() == 0);
    }
    while i < width
        invariant
            i <= width <= 8,
            at + width <= buf@.len() == len,
            value == be_value(buf@.subrange(at as int, at + i)),
        decreases width - i,
    {
        let byte = buf[at + i as usize];
        proof {
            let before = buf@.subrange(at as int, at + i);
            let after = buf@.subrange(at as int, at + i + 1);
            assert(after.drop_last() =~= before);
            assert(after.last() == byte);
            lemma_be_value_bound(before);
            lemma_radix_monotonic(i as nat, 7);
            lemma_radix_values();
            reveal_with_fuel(radix, 9);
        }
        value = value * 256 + byte as u64;
        i = i + 1;
    }
    value
}

/// More bytes hold no fewer values.
pub proof fn lemma_radix_monotonic(a: nat, b: nat)
    requires
        a <= b,
    ensures
        radix(a) <= radix(b),
    decreases b,
{
    if a < b {
        lemma_radix_monotonic(a, (b - 1) as nat);
        lemma_radix_pos((b - 1) as nat);
    }
}

proof fn lemma_radix_step(value: nat, k: nat)
    ensures
        (value / radix(k)) / 256 == value / radix(k + 1),
{
    lemma_radix_pos(k);
    vstd::arithmetic::div_mod::lemma_div_denominator(value as int, radix(k) as int, 256);
    assert(radix(k + 1) == 256 * radix(k));
    assert(radix(k) * 256 == 256 * radix(k)) by (nonlinear_arith);
}

/// Any number of bytes holds at least one value.
pub proof fn lemma_radix_pos(k: nat)
    ensures
        radix(k) > 0,
    decreases k,
{
    if k > 0 {
        lemma_radix_pos((k - 1) as nat);
    }
}

} // verus!
