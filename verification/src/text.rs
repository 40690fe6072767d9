//! Numbers and bytes as ASCII text.
use vstd::prelude::*;
use vstd::utf8::encode_utf8_decode_utf8;

verus! {

/// The ASCII digit of a value below ten.
pub open spec fn digit(d: int) -> u8 {
    (48 + d) as u8
}

/// A number in decimal, without leading zeros.
pub open spec fn decimal(n: nat) -> Seq<u8>
    decreases n,
{
    if n < 10 {
        seq![digit(n as int)]
    } else {
        decimal(n / 10).push(digit((n % 10) as int))
    }
}

/// `count` zero digits.
pub open spec fn zeros(count: nat) -> Seq<u8> {
    Seq::new(count, |i: int| 48u8)
}

/// A number in decimal, filled up with leading zeros to at least `width` digits.
pub open spec fn padded(n: nat, width: nat) -> Seq<u8> {
    let text = decimal(n);
    if text.len() < width {
        zeros((width - text.len()) as nat) + text
    } else {
        text
    }
}

/// A signed number, filled up with zeros behind the sign to at least `width` bytes.
pub open spec fn signed_padded(n: int, width: nat) -> Seq<u8> {
    if n < 0 {
        seq![45u8] + padded((-n) as nat, if width > 0 { (width - 1) as nat } else { 0 })
    } else {
        padded(n as nat, width)
    }
}

/// The lower-case hexadecimal digit of a value below sixteen.
pub open spec fn hex_digit(d: int) -> u8 {
    if d < 10 {
        (48 + d) as u8
    } else {
        (87 + d) as u8
    }
}

/// The two hexadecimal digits of a byte, the high half first.
pub open spec fn hex_pair(b: u8) -> Seq<u8> {
    seq![hex_digit(b as int / 16), hex_digit(b as int % 16)]
}

/// Bytes in lower-case hexadecimal.
pub open spec fn hex(bytes: Seq<u8>) -> Seq<u8>
    decreases bytes.len(),
{
    if bytes.len() == 0 {
        Seq::empty()
    } else {
        hex(bytes.drop_last()) + hex_pair(bytes.last())
    }
}

/// Whether every byte is a decimal digit.
pub open spec fn all_digits(s: Seq<u8>) -> bool {
    forall|i: int| 0 <= i < s.len() ==> 48 <= #[trigger] s[i] <= 57
}

/// The number that decimal digits denote; the empty text denotes zero.
pub open spec fn decimal_value(s: Seq<u8>) -> nat
    decreases s.len(),
{
    if s.len() == 0 {
        0
    } else {
        10 * decimal_value(s.drop_last()) + (s.last() - 48) as nat
    }
}

pub proof fn lemma_decimal(n: nat)
    ensures
        decimal(n).len() >= 1,
        all_digits(decimal(n)),
        decimal_value(decimal(n)) == n,
    decreases n,
{
    if n < 10 {
        assert(decimal(n).drop_last() =~= Seq::empty());
        assert(decimal_value(decimal(n).drop_last()) == 0);
    } else {
        lemma_decimal(n / 10);
        assert(decimal(n).drop_last() =~= decimal(n / 10));
    }
}

/// Two numbers with the same decimal text are equal.
pub proof fn lemma_decimal_injective(a: nat, b: nat)
    requires
        decimal(a) == decimal(b),
    ensures
        a == b,
{
    lemma_decimal(a);
    lemma_decimal(b);
}

/// A number below a power of ten has at most that many digits.
pub proof fn lemma_decimal_len(n: nat)
    ensures
        n < 10 ==> decimal(n).len() == 1,
        n < 100 ==> decimal(n).len() <= 2,
        n < 1000 ==> decimal(n).len() <= 3,
        n < 10000 ==> decimal(n).len() <= 4,
{
    reveal_with_fuel(decimal, 4);
}

/// A power of ten.
pub open spec fn ten_power(k: nat) -> nat
    decreases k,
{
    if k == 0 {
        1
    } else {
        10 * ten_power((k - 1) as nat)
    }
}

proof fn lemma_decimal_width(n: nat, k: nat)
    requires
        k >= 1,
        n < ten_power(k),
    ensures
        decimal(n).len() <= k,
    decreases k,
{
    if n >= 10 {
        assert(ten_power(1) == 10) by {
            reveal_with_fuel(ten_power, 2);
        }
        lemma_decimal_width(n / 10, (k - 1) as nat);
    }
}

/// A number of 64 bits has at most twenty digits.
pub proof fn lemma_decimal_len_u64(n: u64)
    ensures
        decimal(n as nat).len() <= 20,
{
    assert(ten_power(20) == 100_000_000_000_000_000_000) by {
        reveal_with_fuel(ten_power, 21);
    }
    lemma_decimal_width(n as nat, 20);
}

pub proof fn lemma_padded(n: nat, width: nat)
    ensures
        all_digits(padded(n, width)),
        decimal_value(padded(n, width)) == n,
        padded(n, width).len() >= width,
        decimal(n).len() <= width ==> padded(n, width).len() == width,
{
    lemma_decimal(n);
    let text = decimal(n);
    if text.len() < width {
        lemma_zeros_value((width - text.len()) as nat, text);
    }
}

proof fn lemma_zeros_value(k: nat, s: Seq<u8>)
    ensures
        decimal_value(zeros(k) + s) == decimal_value(s),
    decreases s.len(), k,
{
    if s.len() == 0 {
        assert(zeros(k) + s =~= zeros(k));
        if k > 0 {
            assert(zeros(k).drop_last() =~= zeros((k - 1) as nat));
            lemma_zeros_value((k - 1) as nat, s);
            assert(zeros((k - 1) as nat) + s =~= zeros((k - 1) as nat));
        }
    } else {
        assert((zeros(k) + s).drop_last() =~= zeros(k) + s.drop_last());
        lemma_zeros_value(k, s.drop_last());
    }
}

/// Whether a text comes before another in byte order: it is a front part of
/// the other, or smaller in the first byte in which they differ.
pub open spec fn text_before(a: Seq<u8>, b: Seq<u8>) -> bool {
    exists|i: int|
        #![trigger a.take(i)]
        0 <= i <= a.len() && i < b.len() && a.take(i) == b.take(i) && (i == a.len() || a[i] < b[i])
}

/// Equally many digits that denote the same number are the same.
proof fn lemma_same_digits(a: Seq<u8>, b: Seq<u8>)
    requires
        a.len() == b.len(),
        all_digits(a),
        all_digits(b),
        decimal_value(a) == decimal_value(b),
    ensures
        a == b,
    decreases a.len(),
{
    if a.len() > 0 {
        assert(48 <= a.last() <= 57 && 48 <= b.last() <= 57);
        lemma_same_digits(a.drop_last(), b.drop_last());
        assert(a =~= a.drop_last().push(a.last()));
        assert(b =~= b.drop_last().push(b.last()));
    } else {
        assert(a =~= b);
    }
}

/// Of equally many digits, those of the smaller number are smaller where they
/// first differ.
pub proof fn lemma_digits_in_order(a: Seq<u8>, b: Seq<u8>) -> (i: int)
    requires
        a.len() == b.len(),
        all_digits(a),
        all_digits(b),
        decimal_value(a) < decimal_value(b),
    ensures
        0 <= i < a.len(),
        a.take(i) == b.take(i),
        a[i] < b[i],
    decreases a.len(),
{
    let a1 = a.drop_last();
    let b1 = b.drop_last();
    assert(48 <= a.last() <= 57 && 48 <= b.last() <= 57);
    if decimal_value(a1) < decimal_value(b1) {
        let i = lemma_digits_in_order(a1, b1);
        assert(a.take(i) =~= a1.take(i));
        assert(b.take(i) =~= b1.take(i));
        i
    } else {
        lemma_same_digits(a1, b1);
        assert(a.take(a.len() - 1) =~= a1);
        assert(b.take(b.len() - 1) =~= b1);
        a.len() - 1
    }
}

/// Writes a number in decimal.
pub fn decimal_bytes(n: u128) -> (text: Vec<u8>)
    ensures
        text@ == decimal(n as nat),
{
    let mut reversed: Vec<u8> = Vec::new();
    let mut rest: u128 = n;
    while rest >= 10
        invariant
            decimal(n as nat) =~= decimal(rest as nat) + reversed@.reverse(),
        decreases rest,
    {
        let ghost before = reversed@;
        let ghost was = rest;
        reversed.push(48 + (rest % 10) as u8);
        rest = rest / 10;
        proof {
            assert(reversed@.reverse() =~= seq![digit((was % 10) as int)] + before.reverse());
            assert(decimal(was as nat) =~= decimal(rest as nat).push(digit((was % 10) as int)));
        }
    }
    let ghost low = reversed@;
    reversed.push(48 + rest as u8);
    proof {
        assert(reversed@.reverse() =~= seq![digit(rest as int)] + low.reverse());
    }
    reverse_bytes(&reversed)
}

/// The bytes of a sequence in the opposite order.
fn reverse_bytes(bytes: &Vec<u8>) -> (r: Vec<u8>)
    ensures
        r@ == bytes@.reverse(),
{
    let mut out: Vec<u8> = Vec::new();
    let mut i: usize = bytes.len();
    while i > 0
        invariant
            i <= bytes@.len(),
            out@ =~= bytes@.reverse().take(bytes@.len() - i),
        decreases i,
    {
        i = i - 1;
        out.push(bytes[i]);
    }
    assert(bytes@.reverse().take(bytes@.len() as int) =~= bytes@.reverse());
    out
}

/// Writes a number with leading zeros to at least `width` digits.
pub fn padded_bytes(n: u128, width: usize) -> (text: Vec<u8>)
    ensures
        text@ == padded(n as nat, width as nat),
{
    let digits = decimal_bytes(n);
    let mut text: Vec<u8> = Vec::new();
    if digits.len() < width {
        let missing: usize = width - digits.len();
        while text.len() < missing
            invariant
                text@.len() <= missing,
                text@ =~= zeros(text@.len()),
            decreases missing - text@.len(),
        {
            text.push(48);
        }
    }
    append_bytes(&mut text, digits.as_slice());
    text
}

/// Writes a signed number with zeros behind the sign to at least `width` bytes.
pub fn signed_padded_bytes(n: i64, width: usize) -> (text: Vec<u8>)
    ensures
        text@ == signed_padded(n as int, width as nat),
{
    if n < 0 {
        let mut text: Vec<u8> = Vec::new();
        text.push(45);
        let rest: usize = if width > 0 {
            width - 1
        } else {
            0
        };
        append_bytes(&mut text, padded_bytes((-(n as i128)) as u128, rest).as_slice());
        assert(text@ =~= signed_padded(n as int, width as nat));
        text
    } else {
        padded_bytes(n as u128, width)
    }
}

/// Appends bytes to a vector.
pub fn append_bytes(out: &mut Vec<u8>, bytes: &[u8])
    ensures
        final(out)@ == old(out)@ + bytes@,
{
    let ghost before = out@;
    let mut i: usize = 0;
    while i < bytes.len()
        invariant
            i <= bytes@.len(),
            out@ =~= before + bytes@.take(i as int),
        decreases bytes@.len() - i,
    {
        out.push(bytes[i]);
        i = i + 1;
    }
    assert(bytes@.take(bytes@.len() as int) =~= bytes@);
}

/// Copies part of a slice into a vector.
pub fn copy_range(bytes: &[u8], start: usize, end: usize) -> (r: Vec<u8>)
    requires
        start <= end <= bytes@.len(),
    ensures
        r@ == bytes@.subrange(start as int, end as int),
{
    let mut out: Vec<u8> = Vec::new();
    let mut i: usize = start;
    while i < end
        invariant
            start <= i <= end <= bytes@.len(),
            out@ =~= bytes@.subrange(start as int, i as int),
        decreases end - i,
    {
        out.push(bytes[i]);
        i = i + 1;
    }
    out
}

/// Whether two byte slices hold the same bytes.
pub fn same_bytes(a: &[u8], b: &[u8]) -> (r: bool)
    ensures
        r == (a@ == b@),
{
    if a.len() != b.len() {
        return false;
    }
    let mut i: usize = 0;
    while i < a.len()
        invariant
            i <= a@.len(),
            a@.len() == b@.len(),
            a@.take(i as int) =~= b@.take(i as int),
        decreases a@.len() - i,
    {
        if a[i] != b[i] {
            assert(a@[i as int] != b@[i as int]);
            return false;
        }
        i = i + 1;
    }
    assert(a@.take(i as int) =~= a@);
    assert(b@.take(i as int) =~= b@);
    true
}

/// Whether two texts are the same.
pub fn same_text(a: &str, b: &str) -> (r: bool)
    ensures
        r == (a@ == b@),
{
    proof {
        encode_utf8_decode_utf8(a@);
        encode_utf8_decode_utf8(b@);
    }
    same_bytes(a.as_bytes(), b.as_bytes())
}

/// The hexadecimal digit of a value below sixteen.
fn hex_digit_byte(d: u8) -> (r: u8)
    requires
        d < 16,
    ensures
        r == hex_digit(d as int),
{
    if d < 10 {
        48 + d
    } else {
        87 + d
    }
}

/// The two hexadecimal digits of a byte.
pub fn hex_pair_bytes(b: u8) -> (r: [u8; 2])
    ensures
        r@ == hex_pair(b),
{
    let r: [u8; 2] = [hex_digit_byte(b / 16), hex_digit_byte(b % 16)];
    assert(r@ =~= hex_pair(b));
    r
}

} // verus!
