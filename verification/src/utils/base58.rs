//! Addresses in base 58.
use vstd::prelude::*;

verus! {

/// The character of a base-58 digit: digits and letters without `0`, `I`, `O`
/// and `l`.
pub open spec fn base58_char(d: int) -> u8 {
    if d < 9 {
        (49 + d) as u8
    } else if d < 17 {
        (65 + (d - 9)) as u8
    } else if d < 22 {
        (74 + (d - 17)) as u8
    } else if d < 33 {
        (80 + (d - 22)) as u8
    } else if d < 44 {
        (97 + (d - 33)) as u8
    } else {
        (109 + (d - 44)) as u8
    }
}

/// The number that bytes denote, the most significant byte first.
pub open spec fn be_value(bytes: Seq<u8>) -> nat
    decreases bytes.len(),
{
    if bytes.len() == 0 {
        0
    } else {
        256 * be_value(bytes.drop_last()) + bytes.last() as nat
    }
}

/// A number in base 58, as characters, without leading zero digits; zero has
/// no digits.
pub open spec fn base58_digits(n: nat) -> Seq<u8>
    decreases n,
{
    if n == 0 {
        Seq::empty()
    } else {
        base58_digits(n / 58).push(base58_char((n % 58) as int))
    }
}

/// How many zero bytes stand at the front.
pub open spec fn leading_zeros(bytes: Seq<u8>) -> nat
    decreases bytes.len(),
{
    if bytes.len() == 0 || bytes[0] != 0 {
        0
    } else {
        1 + leading_zeros(bytes.drop_first())
    }
}

/// Bytes in base 58: a `1` for each leading zero byte, and then the digits of
/// the number that the bytes denote.
pub open spec fn base58(bytes: Seq<u8>) -> Seq<u8> {
    Seq::new(leading_zeros(bytes), |i: int| 49u8) + base58_digits(be_value(bytes))
}

/// The character of a base-58 digit.
fn base58_char_byte(d: u8) -> (c: u8)
    requires
        d < 58,
    ensures
        c == base58_char(d as int),
{
    if d < 9 {
        49 + d
    } else if d < 17 {
        65 + (d - 9)
    } else if d < 22 {
        74 + (d - 17)
    } else if d < 33 {
        80 + (d - 22)
    } else if d < 44 {
        97 + (d - 33)
    } else {
        109 + (d - 44)
    }
}

/// Divides a number in bytes by 58.
fn divide_by_58(number: &Vec<u8>) -> (r: (Vec<u8>, u8))
    ensures
        be_value(r.0@) == be_value(number@) / 58,
        r.1 == be_value(number@) % 58,
{
    let mut quotient: Vec<u8> = Vec::new();
    let mut rest: u32 = 0;
    let mut i: usize = 0;
    while i < number.len()
        invariant
            i <= number@.len(),
            rest < 58,
            58 * be_value(quotient@) + rest == be_value(number@.take(i as int)),
        decreases number@.len() - i,
    {
        let ghost before = quotient@;
        let current: u32 = rest * 256 + number[i] as u32;
        quotient.push((current / 58) as u8);
        rest = current % 58;
        proof {
            assert(quotient@.drop_last() =~= before);
            assert(number@.take(i as int + 1).drop_last() =~= number@.take(i as int));
        }
        i = i + 1;
    }
    assert(number@.take(i as int) =~= number@);
    (quotient, rest as u8)
}

/// Whether a number in bytes is zero.
fn is_zero(number: &Vec<u8>) -> (r: bool)
    ensures
        r == (be_value(number@) == 0),
{
    let mut i: usize = 0;
    while i < number.len()
        invariant
            i <= number@.len(),
            be_value(number@.take(i as int)) == 0,
        decreases number@.len() - i,
    {
        assert(number@.take(i as int + 1).drop_last() =~= number@.take(i as int));
        if number[i] != 0 {
            proof {
                lemma_be_value_prefix(number@, i as int + 1);
            }
            return false;
        }
        i = i + 1;
    }
    assert(number@.take(i as int) =~= number@);
    true
}

/// A number is at least that of its leading bytes.
proof fn lemma_be_value_prefix(bytes: Seq<u8>, k: int)
    requires
        0 <= k <= bytes.len(),
    ensures
        be_value(bytes.take(k)) <= be_value(bytes),
    decreases bytes.len(),
{
    if k == bytes.len() {
        assert(bytes.take(k) =~= bytes);
    } else {
        lemma_be_value_prefix(bytes.drop_last(), k);
        assert(bytes.drop_last().take(k) =~= bytes.take(k));
    }
}

/// Writes bytes in base 58, unless the text is longer than `capacity`.
pub fn encode_base58(bytes: &[u8], capacity: usize) -> (text: Option<Vec<u8>>)
    ensures
        text is Some <==> base58(bytes@).len() <= capacity,
        text is Some ==> text->0@ == base58(bytes@),
{
    let mut text: Vec<u8> = Vec::new();
    let mut zeros: usize = 0;
    assert(bytes@.skip(0) =~= bytes@);
    while zeros < bytes.len() && bytes[zeros] == 0
        invariant
            zeros <= bytes@.len(),
            leading_zeros(bytes@) == zeros + leading_zeros(bytes@.skip(zeros as int)),
            text@ =~= Seq::new(zeros as nat, |i: int| 49u8),
        decreases bytes@.len() - zeros,
    {
        assert(bytes@.skip(zeros as int).drop_first() =~= bytes@.skip(zeros as int + 1));
        text.push(49);
        zeros = zeros + 1;
    }
    let mut number: Vec<u8> = crate::text::copy_range(bytes, 0, bytes.len());
    assert(number@ =~= bytes@);
    let mut digits: Vec<u8> = Vec::new();
    while !is_zero(&number)
        invariant
            base58_digits(be_value(bytes@)) =~= base58_digits(be_value(number@))
                + digits@.reverse(),
        decreases be_value(number@),
    {
        let ghost value = be_value(number@);
        let ghost before = digits@;
        let (quotient, digit) = divide_by_58(&number);
        digits.push(base58_char_byte(digit));
        number = quotient;
        proof {
            assert(digits@.reverse() =~= seq![base58_char(digit as int)] + before.reverse());
            assert(base58_digits(value) =~= base58_digits(be_value(number@)).push(
                base58_char(digit as int),
            ));
        }
    }
    let mut i: usize = digits.len();
    while i > 0
        invariant
            i <= digits@.len(),
            text@ =~= Seq::new(zeros as nat, |j: int| 49u8) + digits@.reverse().take(
                digits@.len() - i,
            ),
        decreases i,
    {
        i = i - 1;
        text.push(digits[i]);
    }
    assert(digits@.reverse().take(digits@.len() as int) =~= digits@.reverse());
    assert(text@ =~= base58(bytes@));
    if text.len() <= capacity {
        Some(text)
    } else {
        None
    }
}

/// The base-58 digit of a character.
spec fn base58_index(c: u8) -> int {
    if c <= 57 {
        c - 49
    } else if c <= 72 {
        c - 65 + 9
    } else if c <= 78 {
        c - 74 + 17
    } else if c <= 90 {
        c - 80 + 22
    } else if c <= 107 {
        c - 97 + 33
    } else {
        c - 109 + 44
    }
}

/// The number that base-58 characters denote.
spec fn base58_value(text: Seq<u8>) -> int
    decreases text.len(),
{
    if text.len() == 0 {
        0
    } else {
        58 * base58_value(text.drop_last()) + base58_index(text.last())
    }
}

proof fn lemma_base58_digits_value(zeros: nat, n: nat)
    ensures
        base58_value(Seq::new(zeros, |i: int| 49u8) + base58_digits(n)) == n,
    decreases n, zeros,
{
    let ones = Seq::new(zeros, |i: int| 49u8);
    let text = ones + base58_digits(n);
    if n == 0 {
        assert(text =~= ones);
        if zeros > 0 {
            let fewer = Seq::new((zeros - 1) as nat, |i: int| 49u8);
            assert(text.drop_last() =~= fewer + base58_digits(0));
            lemma_base58_digits_value((zeros - 1) as nat, 0);
        }
    } else {
        assert(text.drop_last() =~= ones + base58_digits(n / 58));
        lemma_base58_digits_value(zeros, n / 58);
    }
}

proof fn lemma_be_value_injective(a: Seq<u8>, b: Seq<u8>)
    requires
        a.len() == b.len(),
        be_value(a) == be_value(b),
    ensures
        a == b,
    decreases a.len(),
{
    if a.len() > 0 {
        lemma_be_value_injective(a.drop_last(), b.drop_last());
        assert(a =~= a.drop_last().push(a.last()));
        assert(b =~= b.drop_last().push(b.last()));
    } else {
        assert(a =~= b);
    }
}

/// Two byte strings of one length that read alike in base 58 are equal.
pub proof fn base58_is_unambiguous(a: Seq<u8>, b: Seq<u8>)
    requires
        a.len() == b.len(),
        base58(a) == base58(b),
    ensures
        a == b,
{
    lemma_base58_digits_value(leading_zeros(a), be_value(a));
    lemma_base58_digits_value(leading_zeros(b), be_value(b));
    lemma_be_value_injective(a, b);
}

/// The k-th power of a base.
spec fn power(base: nat, k: nat) -> nat
    decreases k,
{
    if k == 0 {
        1
    } else {
        base * power(base, (k - 1) as nat)
    }
}

proof fn lemma_base58_digits_len(n: nat, k: nat)
    requires
        n < power(58, k),
    ensures
        base58_digits(n).len() <= k,
    decreases k,
{
    if n > 0 {
        assert(k > 0);
        lemma_base58_digits_len(n / 58, (k - 1) as nat);
    }
}

proof fn lemma_be_value_bound(bytes: Seq<u8>)
    ensures
        leading_zeros(bytes) <= bytes.len(),
        be_value(bytes) < power(256, (bytes.len() - leading_zeros(bytes)) as nat),
    decreases bytes.len(),
{
    if bytes.len() > 0 {
        let front = bytes.drop_last();
        lemma_be_value_bound(front);
        lemma_leading_zeros_drop_last(bytes);
        if leading_zeros(bytes) == bytes.len() {
            lemma_leading_zeros_last(bytes);
        }
    }
}

proof fn lemma_leading_zeros_drop_last(bytes: Seq<u8>)
    requires
        bytes.len() > 0,
    ensures
        leading_zeros(bytes) <= bytes.len(),
        leading_zeros(bytes) < bytes.len() ==> leading_zeros(bytes) == leading_zeros(
            bytes.drop_last(),
        ),
        leading_zeros(bytes) == bytes.len() ==> leading_zeros(bytes.drop_last()) == bytes.len() - 1,
    decreases bytes.len(),
{
    if bytes[0] == 0 && bytes.len() > 1 {
        lemma_leading_zeros_drop_last(bytes.drop_first());
        assert(bytes.drop_first().drop_last() =~= bytes.drop_last().drop_first());
    } else if bytes[0] == 0 {
        assert(leading_zeros(bytes.drop_first()) == 0);
        assert(leading_zeros(bytes.drop_last()) == 0);
    }
}

proof fn lemma_leading_zeros_last(bytes: Seq<u8>)
    requires
        bytes.len() > 0,
        leading_zeros(bytes) == bytes.len(),
    ensures
        bytes.last() == 0,
    decreases bytes.len(),
{
    if bytes.len() > 1 {
        lemma_leading_zeros_last(bytes.drop_first());
    }
}

/// Eight bytes take at most eleven base-58 digits.
proof fn lemma_powers_of_blocks(k: nat)
    ensures
        power(256, 8 * k) <= power(58, 11 * k),
    decreases k,
{
    if k > 0 {
        let j = (k - 1) as nat;
        lemma_powers_of_blocks(j);
        assert(power(256, 8 * j + 8) == 0x1_0000_0000_0000_0000 * power(256, 8 * j)) by {
            reveal_with_fuel(power, 9);
        }
        assert(power(58, 11 * j + 11) == 24986644000165537792 * power(58, 11 * j)) by {
            reveal_with_fuel(power, 12);
        }
    }
}

proof fn lemma_powers(m: nat)
    requires
        m <= 32,
    ensures
        power(256, m) <= power(58, m + 12),
    decreases 32 - m,
{
    if m == 32 {
        lemma_powers_of_blocks(4);
    } else {
        lemma_powers(m + 1);
        assert(power(256, m + 1) == 256 * power(256, m));
        assert(power(58, m + 13) == 58 * power(58, m + 12));
    }
}

/// An address of 32 bytes takes at most 44 characters.
pub proof fn address_fits_base58(address: Seq<u8>)
    requires
        address.len() == 32,
    ensures
        base58(address).len() <= 44,
{
    lemma_be_value_bound(address);
    let m = (32 - leading_zeros(address)) as nat;
    lemma_powers(m);
    lemma_base58_digits_len(be_value(address), m + 12);
}

} // verus!
