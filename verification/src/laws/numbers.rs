//! Laws on numbers, parts and sizes: how bytes and digits denote numbers.
use crate::bytes::{i64_of_bits, le_bytes, le_value, part, u64_bits};
use crate::text::{decimal, decimal_value, hex, lemma_decimal, padded};
use crate::utils::base58::{base58, base58_char, base58_digits, be_value, leading_zeros};
use crate::utils::definition::{
    encoding_of, encoding_size, param_size, DataEncoding, ParamType,
};
use crate::utils::message::signed_decimal;
use vstd::prelude::*;
use vstd::string::StringSliceAdditionalSpecFns;

verus! {

/// Little-endian bytes denote a number: the first byte counts once, and each
/// later one 256 times as much as the one before it.
pub proof fn the_first_byte_counts_least(first: u8, rest: Seq<u8>)
    ensures
        le_value(Seq::<u8>::empty()) == 0,
        le_value(seq![first] + rest) == first + 256 * le_value(rest),
{
    assert((seq![first] + rest).drop_first() =~= rest);
}

/// The bytes of little-endian numbers lie behind one another: a longer number is
/// its low bytes plus its high bytes, shifted by as many bytes.
pub proof fn higher_bytes_count_more(low: Seq<u8>, high: Seq<u8>, weight: nat)
    requires
        weight == vstd::arithmetic::power::pow(256, low.len()),
    ensures
        le_value(low + high) == le_value(low) + weight * le_value(high),
    decreases low.len(),
{
    vstd::arithmetic::power::lemma_pow0(256);
    if low.len() == 0 {
        assert(low + high =~= high);
        assert(weight * le_value(high) == le_value(high)) by (nonlinear_arith)
            requires
                weight == 1,
        ;
    } else {
        let rest = low.drop_first();
        let less = vstd::arithmetic::power::pow(256, rest.len());
        vstd::arithmetic::power::lemma_pow_positive(256, rest.len());
        reveal(vstd::arithmetic::power::pow);
        assert(weight == 256 * less);
        higher_bytes_count_more(rest, high, less as nat);
        assert((low + high).drop_first() =~= rest + high);
        assert(256 * (less * le_value(high)) == weight * le_value(high)) by (nonlinear_arith)
            requires
                weight == 256 * less,
        ;
    }
}

/// Two byte strings of one length that denote the same number are equal.
pub proof fn bytes_are_their_number(a: Seq<u8>, b: Seq<u8>)
    requires
        a.len() == b.len(),
        le_value(a) == le_value(b),
    ensures
        a == b,
    decreases a.len(),
{
    if a.len() > 0 {
        assert(a[0] == b[0] && le_value(a.drop_first()) == le_value(b.drop_first()));
        bytes_are_their_number(a.drop_first(), b.drop_first());
        assert(a =~= seq![a[0]] + a.drop_first());
        assert(b =~= seq![b[0]] + b.drop_first());
    } else {
        assert(a =~= b);
    }
}

/// A number is written in little-endian bytes one byte at a time: first what is
/// left over 256, then the rest.
pub proof fn numbers_are_written_low_byte_first(n: nat, width: nat)
    ensures
        le_bytes(n, 0) == Seq::<u8>::empty(),
        le_bytes(n, width + 1) == seq![(n % 256) as u8] + le_bytes(n / 256, width),
{
}

/// Signed numbers of 64 bits are written in two's complement, and read back.
pub proof fn signed_numbers_are_twos_complement(n: i64)
    ensures
        u64_bits(n) == n as int % 0x1_0000_0000_0000_0000,
        i64_of_bits(u64_bits(n)) == n,
{
}

/// The signed number that 64 bits denote is the one that is written so.
pub proof fn bits_denote_a_signed_number(bits: u64)
    ensures
        i64::MIN <= i64_of_bits(bits as nat) <= i64::MAX,
        i64_of_bits(bits as nat) % 0x1_0000_0000_0000_0000 == bits,
{
}

/// A part is there exactly where it lies within, and holds the bytes from its
/// start on.
pub proof fn parts_lie_within(bytes: Seq<u8>, start: int, len: int)
    ensures
        part(bytes, start, len) is Some <==> 0 <= start && 0 <= len && start + len <= bytes.len(),
        part(bytes, start, len) is Some ==> part(bytes, start, len)->0.len() == len,
        part(bytes, start, len) is Some ==> forall|i: int|
            0 <= i < len ==> #[trigger] part(bytes, start, len)->0[i] == bytes[start + i],
{
}

/// Decimal digits denote a number: the last digit counts once, and each digit
/// before it ten times as much as the one behind it.
pub proof fn the_last_digit_counts_least(front: Seq<u8>, last: u8)
    requires
        48 <= last <= 57,
    ensures
        decimal_value(Seq::<u8>::empty()) == 0,
        decimal_value(front.push(last)) == 10 * decimal_value(front) + (last - 48),
{
    assert(front.push(last).drop_last() =~= front);
}

/// A number in decimal consists of digits, denotes the number, and has no zero
/// in front, except zero itself.
pub proof fn decimals_denote_their_number(n: nat)
    ensures
        decimal_value(decimal(n)) == n,
        forall|i: int| 0 <= i < decimal(n).len() ==> 48 <= #[trigger] decimal(n)[i] <= 57,
        decimal(n).len() >= 1,
        decimal(n)[0] == 48 ==> n == 0 && decimal(n).len() == 1,
    decreases n,
{
    lemma_decimal(n);
    if n >= 10 {
        decimals_denote_their_number(n / 10);
        assert(decimal(n)[0] == decimal(n / 10)[0]);
    }
}

/// A signed number has a `-` in front exactly where it is negative, and then the
/// digits of its amount.
pub proof fn signed_decimals_have_a_sign(n: int)
    ensures
        n >= 0 ==> signed_decimal(n) == decimal(n as nat),
        n < 0 ==> signed_decimal(n) == seq![45u8] + decimal((-n) as nat),
{
    reveal_strlit("-");
    vstd::utf8::is_ascii_chars_encode_utf8("-"@);
    assert("-".spec_bytes() =~= seq![45u8]);
}

/// Two signed numbers that read alike are equal.
pub proof fn signed_decimals_are_unambiguous(a: int, b: int)
    requires
        signed_decimal(a) == signed_decimal(b),
    ensures
        a == b,
{
    signed_decimals_have_a_sign(a);
    signed_decimals_have_a_sign(b);
    let x = if a < 0 {
        decimal((-a) as nat)
    } else {
        decimal(a as nat)
    };
    let y = if b < 0 {
        decimal((-b) as nat)
    } else {
        decimal(b as nat)
    };
    lemma_decimal(if a < 0 { (-a) as nat } else { a as nat });
    lemma_decimal(if b < 0 { (-b) as nat } else { b as nat });
    let s = signed_decimal(a);
    if a < 0 {
        assert(s[0] == 45);
        assert(x =~= s.skip(1));
    } else {
        assert(48 <= s[0]);
    }
    if b < 0 {
        assert(signed_decimal(b)[0] == 45);
        assert(y =~= signed_decimal(b).skip(1));
    } else {
        assert(48 <= signed_decimal(b)[0]);
    }
}

/// Filling up with zeros changes neither the number nor, where it has as many
/// digits, the text.
pub proof fn padding_keeps_the_number(n: nat, width: nat)
    ensures
        decimal_value(padded(n, width)) == n,
        padded(n, width).len() == if decimal(n).len() < width {
            width
        } else {
            decimal(n).len()
        },
        forall|i: int|
            0 <= i < padded(n, width).len() ==> 48 <= #[trigger] padded(n, width)[i] <= 57,
{
    crate::text::lemma_padded(n, width);
}

/// Each byte is two hexadecimal digits, the high half first: `0` to `9` and `a`
/// to `f`.
pub proof fn hexadecimal_has_two_digits_for_each_byte(bytes: Seq<u8>, i: int)
    requires
        0 <= i < bytes.len(),
    ensures
        hex(bytes).len() == 2 * bytes.len(),
        bytes[i] / 16 < 10 ==> hex(bytes)[2 * i] == 48 + bytes[i] / 16,
        bytes[i] / 16 >= 10 ==> hex(bytes)[2 * i] == 97 + (bytes[i] / 16 - 10),
        bytes[i] % 16 < 10 ==> hex(bytes)[2 * i + 1] == 48 + bytes[i] % 16,
        bytes[i] % 16 >= 10 ==> hex(bytes)[2 * i + 1] == 97 + (bytes[i] % 16 - 10),
    decreases bytes.len(),
{
    if i < bytes.len() - 1 {
        hexadecimal_has_two_digits_for_each_byte(bytes.drop_last(), i);
        assert(bytes.drop_last()[i] == bytes[i]);
    } else if bytes.len() > 1 {
        hexadecimal_has_two_digits_for_each_byte(bytes.drop_last(), 0);
    } else {
        assert(hex(bytes.drop_last()) =~= Seq::empty());
    }
}

/// The digits of base 58 are, in this order, the characters of
/// `123456789ABCDEFGHJKLMNPQRSTUVWXYZabcdefghijkmnopqrstuvwxyz`.
pub proof fn base58_has_its_alphabet(d: int)
    requires
        0 <= d < 58,
    ensures
        "123456789ABCDEFGHJKLMNPQRSTUVWXYZabcdefghijkmnopqrstuvwxyz"@.len() == 58,
        base58_char(d)
            == "123456789ABCDEFGHJKLMNPQRSTUVWXYZabcdefghijkmnopqrstuvwxyz"@[d] as u8,
{
    reveal_strlit("123456789ABCDEFGHJKLMNPQRSTUVWXYZabcdefghijkmnopqrstuvwxyz");
}

/// Big-endian bytes denote a number: the last byte counts once, and each byte
/// before it 256 times as much as the one behind it.
pub proof fn the_last_byte_counts_least(front: Seq<u8>, last: u8)
    ensures
        be_value(Seq::<u8>::empty()) == 0,
        be_value(front.push(last)) == 256 * be_value(front) + last,
{
    assert(front.push(last).drop_last() =~= front);
}

/// Base 58 writes the number that the bytes denote: zero has no digits, and the
/// digits of any other number are those of its 58th part and then the digit of
/// what is left. A zero byte in front is a `1` in front.
pub proof fn base58_writes_the_number(bytes: Seq<u8>, n: nat)
    ensures
        base58_digits(0) == Seq::<u8>::empty(),
        n > 0 ==> base58_digits(n) == base58_digits(n / 58).push(base58_char((n % 58) as int)),
        bytes.len() > 0 && bytes[0] != 0 ==> base58(bytes) == base58_digits(be_value(bytes)),
        base58(seq![0u8] + bytes) == seq![49u8] + base58(bytes),
        base58(Seq::<u8>::empty()) == Seq::<u8>::empty(),
{
    let longer = seq![0u8] + bytes;
    assert(longer.drop_first() =~= bytes);
    lemma_zero_in_front(bytes);
    assert(Seq::new(leading_zeros(longer), |i: int| 49u8) =~= seq![49u8] + Seq::new(
        leading_zeros(bytes),
        |i: int| 49u8,
    ));
    assert(base58(longer) =~= seq![49u8] + base58(bytes));
    if bytes.len() > 0 && bytes[0] != 0 {
        assert(base58(bytes) =~= base58_digits(be_value(bytes)));
    }
    assert(base58(Seq::<u8>::empty()) =~= Seq::<u8>::empty());
}

proof fn lemma_zero_in_front(bytes: Seq<u8>)
    ensures
        be_value(seq![0u8] + bytes) == be_value(bytes),
    decreases bytes.len(),
{
    let longer = seq![0u8] + bytes;
    if bytes.len() > 0 {
        lemma_zero_in_front(bytes.drop_last());
        assert(longer.drop_last() =~= seq![0u8] + bytes.drop_last());
    } else {
        assert(longer.drop_last() =~= Seq::empty());
        assert(longer.last() == 0);
        assert(be_value(longer.drop_last()) == 0);
    }
}

/// How many bytes each type of parameter takes: an address 32, a text one more
/// than its first byte says, flags and bytes 1, and numbers of 16, 32, 64 and
/// 128 bits 2, 4, 8 and 16.
pub proof fn parameters_have_their_sizes(data: Seq<u8>, offset: int)
    ensures
        param_size(ParamType::Address, data, offset) == Some(32int),
        param_size(ParamType::U64, data, offset) == Some(8int),
        param_size(ParamType::I64, data, offset) == Some(8int),
        param_size(ParamType::Bool, data, offset) == Some(1int),
        param_size(ParamType::U8, data, offset) == Some(1int),
        param_size(ParamType::U16, data, offset) == Some(2int),
        param_size(ParamType::U32, data, offset) == Some(4int),
        param_size(ParamType::U128, data, offset) == Some(16int),
        0 <= offset < data.len() ==> param_size(ParamType::String, data, offset) == Some(
            1 + data[offset],
        ),
        offset < 0 || offset >= data.len() ==> param_size(ParamType::String, data, offset) is None,
{
}

/// The encodings have the numbers 0 to 7, and take as many bytes as the
/// parameters of the same type.
pub proof fn encodings_have_their_numbers_and_sizes(number: u8, data: Seq<u8>)
    ensures
        encoding_of(0) == Some(DataEncoding::Address),
        encoding_of(1) == Some(DataEncoding::U64),
        encoding_of(2) == Some(DataEncoding::I64),
        encoding_of(3) == Some(DataEncoding::Bool),
        encoding_of(4) == Some(DataEncoding::U8),
        encoding_of(5) == Some(DataEncoding::U16),
        encoding_of(6) == Some(DataEncoding::U32),
        encoding_of(7) == Some(DataEncoding::U128),
        number > 7 ==> encoding_of(number) is None,
        param_size(ParamType::Address, data, 0) == Some(encoding_size(DataEncoding::Address)),
        param_size(ParamType::U64, data, 0) == Some(encoding_size(DataEncoding::U64)),
        param_size(ParamType::I64, data, 0) == Some(encoding_size(DataEncoding::I64)),
        param_size(ParamType::Bool, data, 0) == Some(encoding_size(DataEncoding::Bool)),
        param_size(ParamType::U8, data, 0) == Some(encoding_size(DataEncoding::U8)),
        param_size(ParamType::U16, data, 0) == Some(encoding_size(DataEncoding::U16)),
        param_size(ParamType::U32, data, 0) == Some(encoding_size(DataEncoding::U32)),
        param_size(ParamType::U128, data, 0) == Some(encoding_size(DataEncoding::U128)),
{
}

} // verus!
