//! Little-endian numbers and parts of byte strings.
use vstd::prelude::*;
use vstd::slice::slice_subrange;

verus! {

/// The number that bytes denote, the least significant byte first.
pub open spec fn le_value(bytes: Seq<u8>) -> nat
    decreases bytes.len(),
{
    if bytes.len() == 0 {
        0
    } else {
        bytes[0] as nat + 256 * le_value(bytes.drop_first())
    }
}

/// The `width` low bytes of a number, the least significant byte first.
pub open spec fn le_bytes(n: nat, width: nat) -> Seq<u8>
    decreases width,
{
    if width == 0 {
        Seq::empty()
    } else {
        seq![(n % 256) as u8] + le_bytes(n / 256, (width - 1) as nat)
    }
}

/// A signed number as the unsigned number with the same 64 bits.
pub open spec fn u64_bits(n: i64) -> nat {
    if n < 0 {
        (n + 0x1_0000_0000_0000_0000) as nat
    } else {
        n as nat
    }
}

/// The signed number that 64 bits denote.
pub open spec fn i64_of_bits(n: nat) -> int {
    if n < 0x8000_0000_0000_0000 {
        n as int
    } else {
        n - 0x1_0000_0000_0000_0000
    }
}

/// The `len` bytes from `start` on, where there are so many.
pub open spec fn part(bytes: Seq<u8>, start: int, len: int) -> Option<Seq<u8>> {
    if 0 <= start && 0 <= len && start + len <= bytes.len() {
        Some(bytes.subrange(start, start + len))
    } else {
        None
    }
}

/// How many values `width` bytes can hold.
pub open spec fn byte_capacity(width: nat) -> nat
    decreases width,
{
    if width == 0 {
        1
    } else {
        256 * byte_capacity((width - 1) as nat)
    }
}

/// Reading little-endian bytes gives back the number that was written.
pub proof fn le_round_trip(n: nat, width: nat)
    requires
        n < byte_capacity(width),
    ensures
        le_bytes(n, width).len() == width,
        le_value(le_bytes(n, width)) == n,
    decreases width,
{
    if width > 0 {
        le_round_trip(n / 256, (width - 1) as nat);
        assert(le_bytes(n, width).drop_first() =~= le_bytes(n / 256, (width - 1) as nat));
    }
}

/// Writing a number in `width` bytes gives `width` bytes.
pub proof fn le_bytes_len(n: nat, width: nat)
    ensures
        le_bytes(n, width).len() == width,
    decreases width,
{
    if width > 0 {
        le_bytes_len(n / 256, (width - 1) as nat);
    }
}

/// A number of `k` bytes is below the k-th power of 256.
pub proof fn le_value_bound(bytes: Seq<u8>)
    ensures
        le_value(bytes) < byte_capacity(bytes.len()),
    decreases bytes.len(),
{
    if bytes.len() > 0 {
        le_value_bound(bytes.drop_first());
    }
}

/// How many values one, two, four, eight and sixteen bytes can hold.
pub proof fn byte_capacities()
    ensures
        byte_capacity(1) == 0x100,
        byte_capacity(2) == 0x1_0000,
        byte_capacity(4) == 0x1_0000_0000,
        byte_capacity(8) == 0x1_0000_0000_0000_0000,
        byte_capacity(16) == 0x1_0000_0000_0000_0000_0000_0000_0000_0000,
{
    reveal_with_fuel(byte_capacity, 17);
}

/// The part of a slice, where it lies within.
pub fn get_part(bytes: &[u8], start: usize, len: usize) -> (r: Option<&[u8]>)
    ensures
        r is Some <==> part(bytes@, start as int, len as int) is Some,
        r is Some ==> Some(r->0@) == part(bytes@, start as int, len as int),
{
    if start <= bytes.len() && len <= bytes.len() - start {
        Some(slice_subrange(bytes, start, start + len))
    } else {
        None
    }
}

/// Reads a little-endian number of at most sixteen bytes.
pub fn read_le(bytes: &[u8]) -> (n: u128)
    requires
        bytes@.len() <= 16,
    ensures
        n == le_value(bytes@),
{
    let mut n: u128 = 0;
    let mut i: usize = bytes.len();
    proof {
        assert(bytes@.skip(bytes@.len() as int) =~= Seq::empty());
        byte_capacities();
    }
    while i > 0
        invariant
            i <= bytes@.len() <= 16,
            n == le_value(bytes@.skip(i as int)),
        decreases i,
    {
        i = i - 1;
        proof {
            let rest = bytes@.skip(i as int);
            assert(rest.drop_first() =~= bytes@.skip(i as int + 1));
            le_value_bound(rest);
            lemma_capacity_monotone(rest.len(), 16);
            byte_capacities();
        }
        n = bytes[i] as u128 + 256 * n;
    }
    assert(bytes@.skip(0) =~= bytes@);
    n
}

proof fn lemma_capacity_monotone(a: nat, b: nat)
    requires
        a <= b,
    ensures
        byte_capacity(a) <= byte_capacity(b),
    decreases b,
{
    if a < b {
        lemma_capacity_monotone(a, (b - 1) as nat);
    }
}

/// Appends the `width` low bytes of a number, the least significant first.
pub fn push_le(out: &mut Vec<u8>, n: u64, width: usize)
    ensures
        final(out)@ == old(out)@ + le_bytes(n as nat, width as nat),
{
    let ghost before = out@;
    let mut rest: u64 = n;
    let mut left: usize = width;
    while left > 0
        invariant
            left <= width,
            before + le_bytes(n as nat, width as nat) =~= out@ + le_bytes(rest as nat, left as nat),
        decreases left,
    {
        let ghost was = out@;
        out.push((rest % 256) as u8);
        proof {
            assert(was + le_bytes(rest as nat, left as nat) =~= out@ + le_bytes(
                (rest / 256) as nat,
                (left - 1) as nat,
            ));
        }
        rest = rest / 256;
        left = left - 1;
    }
}

/// The 64 bits of a signed number.
pub fn to_u64_bits(n: i64) -> (r: u64)
    ensures
        r == u64_bits(n),
{
    if n < 0 {
        u64::MAX - (-(n + 1)) as u64
    } else {
        n as u64
    }
}

/// The signed number that 64 bits denote.
pub fn from_u64_bits(n: u64) -> (r: i64)
    ensures
        r == i64_of_bits(n as nat),
{
    if n <= i64::MAX as u64 {
        n as i64
    } else {
        -((u64::MAX - n) as i64) - 1
    }
}

} // verus!
