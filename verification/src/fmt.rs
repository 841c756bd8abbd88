//! Verified construction of the decimal and hexadecimal strings that the
//! decoders and renderers emit.

use vstd::prelude::*;
use vstd::string::StrSliceExecFns;
use vstd::string::StringExecFns;

verus! {

/// The character for one decimal digit.
pub open spec fn dec_digit(d: int) -> char {
    if d == 0 {
        '0'
    } else if d == 1 {
        '1'
    } else if d == 2 {
        '2'
    } else if d == 3 {
        '3'
    } else if d == 4 {
        '4'
    } else if d == 5 {
        '5'
    } else if d == 6 {
        '6'
    } else if d == 7 {
        '7'
    } else if d == 8 {
        '8'
    } else {
        '9'
    }
}

/// The decimal rendering of a non-negative integer, most significant digit
/// first, without leading zeroes (`0` renders as "0").
pub open spec fn dec_of(n: nat) -> Seq<char>
    decreases n,
{
    if n < 10 {
        seq![dec_digit(n as int)]
    } else {
        dec_of(n / 10) + seq![dec_digit((n % 10) as int)]
    }
}

/// The decimal rendering of a signed integer: a leading '-' for negatives.
pub open spec fn dec_of_int(n: int) -> Seq<char> {
    if n < 0 {
        seq!['-'] + dec_of((-n) as nat)
    } else {
        dec_of(n as nat)
    }
}

/// `s` left-padded with '0' up to `width` characters.
pub open spec fn zero_pad(s: Seq<char>, width: nat) -> Seq<char> {
    if s.len() >= width {
        s
    } else {
        Seq::new((width - s.len()) as nat, |i: int| '0') + s
    }
}

/// The character for one hexadecimal digit, lower case.
pub open spec fn hex_digit(d: int) -> char {
    if d == 10 {
        'a'
    } else if d == 11 {
        'b'
    } else if d == 12 {
        'c'
    } else if d == 13 {
        'd'
    } else if d == 14 {
        'e'
    } else if d == 15 {
        'f'
    } else {
        dec_digit(d)
    }
}

/// Lower-case hexadecimal rendering of a byte string: two digits per byte,
/// high nibble first, bytes in order.
pub open spec fn hex_of(bytes: Seq<u8>) -> Seq<char>
    decreases bytes.len(),
{
    if bytes.len() == 0 {
        Seq::empty()
    } else {
        hex_of(bytes.drop_last()) + seq![
            hex_digit(bytes.last() as int / 16),
            hex_digit(bytes.last() as int % 16),
        ]
    }
}

/// Relies on std's `String::push`: appends the character at the end.
#[verifier::external_body]
pub(crate) fn push_char(s: &mut String, c: char)
    ensures
        final(s)@ == old(s)@.push(c),
{
    s.push(c);
}

/// Relies on `hex::encode`: two lower-case hexadecimal digits per input
/// byte, high nibble first, bytes in input order.
#[verifier::external_body]
pub(crate) fn hex_encode(bytes: &[u8]) -> (r: String)
    ensures
        r@ == hex_of(bytes@),
{
    hex::encode(bytes)
}

fn dec_digit_char(d: u8) -> (c: char)
    requires
        d < 10,
    ensures
        c == dec_digit(d as int),
{
    match d {
        0 => '0',
        1 => '1',
        2 => '2',
        3 => '3',
        4 => '4',
        5 => '5',
        6 => '6',
        7 => '7',
        8 => '8',
        _ => '9',
    }
}

/// The decimal rendering of `n`, appended to `s`.
fn append_dec_u64(s: &mut String, n: u64)
    ensures
        final(s)@ == old(s)@ + dec_of(n as nat),
    decreases n,
{
    if n < 10 {
        push_char(s, dec_digit_char(n as u8));
        assert(s@ =~= old(s)@ + dec_of(n as nat));
    } else {
        append_dec_u64(s, n / 10);
        push_char(s, dec_digit_char((n % 10) as u8));
        assert(s@ =~= old(s)@ + dec_of(n as nat));
    }
}

/// The decimal rendering of a non-negative integer.
pub fn u64_to_dec(n: u64) -> (s: String)
    ensures
        s@ == dec_of(n as nat),
{
    let mut s = String::new();
    append_dec_u64(&mut s, n);
    assert(s@ =~= dec_of(n as nat));
    s
}

pub fn u32_to_dec(n: u32) -> (s: String)
    ensures
        s@ == dec_of(n as nat),
{
    u64_to_dec(n as u64)
}

/// The decimal rendering of a signed integer.
pub fn i64_to_dec(n: i64) -> (s: String)
    ensures
        s@ == dec_of_int(n as int),
{
    if n >= 0 {
        u64_to_dec(n as u64)
    } else {
        let mut s = String::new();
        push_char(&mut s, '-');
        let magnitude: u64 = if n == i64::MIN {
            9223372036854775808u64
        } else {
            (-n) as u64
        };
        append_dec_u64(&mut s, magnitude);
        assert(s@ =~= dec_of_int(n as int));
        s
    }
}

pub fn i32_to_dec(n: i32) -> (s: String)
    ensures
        s@ == dec_of_int(n as int),
{
    i64_to_dec(n as i64)
}

/// The decimal rendering of `n`, left-padded with zeroes to `width`,
/// appended to `s`.
pub fn append_dec_u64_padded(s: &mut String, n: u64, width: usize)
    ensures
        final(s)@ == old(s)@ + zero_pad(dec_of(n as nat), width as nat),
    decreases width,
{
    let digits = u64_to_dec(n);
    let len = digits.as_str().unicode_len();
    if len >= width {
        s.append(digits.as_str());
        assert(s@ =~= old(s)@ + zero_pad(dec_of(n as nat), width as nat));
    } else {
        push_char(s, '0');
        proof {
            lemma_zero_pad_step(dec_of(n as nat), width as nat);
        }
        append_padded_rest(s, digits, width - 1);
        assert(s@ =~= old(s)@ + zero_pad(dec_of(n as nat), width as nat));
    }
}

fn append_padded_rest(s: &mut String, digits: String, width: usize)
    ensures
        final(s)@ == old(s)@ + zero_pad(digits@, width as nat),
    decreases width,
{
    let len = digits.as_str().unicode_len();
    if len >= width {
        s.append(digits.as_str());
        assert(s@ =~= old(s)@ + zero_pad(digits@, width as nat));
    } else {
        push_char(s, '0');
        proof {
            lemma_zero_pad_step(digits@, width as nat);
        }
        append_padded_rest(s, digits, width - 1);
        assert(s@ =~= old(s)@ + zero_pad(digits@, width as nat));
    }
}

proof fn lemma_zero_pad_step(s: Seq<char>, width: nat)
    requires
        s.len() < width,
    ensures
        zero_pad(s, width) == seq!['0'] + zero_pad(s, (width - 1) as nat),
{
    assert(zero_pad(s, width) =~= seq!['0'] + zero_pad(s, (width - 1) as nat));
}

} // verus!
