//! Numbers as text, and text as numbers.

use crate::lisp_parse::{is_space, is_whitespace, push_char};
use vstd::prelude::*;

verus! {

/// The character of a digit below ten.
pub open spec fn digit(d: nat) -> char {
    if d == 0 {
        '0'
    } else if d == 1 {
        '1'
    } else if d == 2 {
        '2'
    } else if d == 3 {
        '3'
    } else if d == 4 {
        '4'
    } else if d == 5 {
        '5'
    } else if d == 6 {
        '6'
    } else if d == 7 {
        '7'
    } else if d == 8 {
        '8'
    } else {
        '9'
    }
}

/// `n` in decimal, most significant digit first, without leading zeros.
pub open spec fn decimal(n: nat) -> Seq<char>
    decreases n,
{
    if n < 10 {
        seq![digit(n)]
    } else {
        decimal(n / 10).push(digit(n % 10))
    }
}

/// `n` in binary, most significant digit first, without leading zeros.
pub open spec fn binary(n: nat) -> Seq<char>
    decreases n,
{
    if n < 2 {
        seq![digit(n)]
    } else {
        binary(n / 2).push(digit(n % 2))
    }
}

/// The 32-bit pattern of `i` in two's complement.
pub open spec fn pattern(i: i32) -> nat {
    if i < 0 {
        (i + 0x1_0000_0000) as nat
    } else {
        i as nat
    }
}

/// `i` in binary, prefixed `0b`: the digits of its 32-bit pattern.
pub open spec fn prefixed_binary(i: i32) -> Seq<char> {
    seq!['0', 'b'] + binary(pattern(i))
}

/// The character of a digit below ten.
fn digit_char(d: u64) -> (c: char)
    requires
        d < 10,
    ensures
        c == digit(d as nat),
{
    if d == 0 {
        '0'
    } else if d == 1 {
        '1'
    } else if d == 2 {
        '2'
    } else if d == 3 {
        '3'
    } else if d == 4 {
        '4'
    } else if d == 5 {
        '5'
    } else if d == 6 {
        '6'
    } else if d == 7 {
        '7'
    } else if d == 8 {
        '8'
    } else {
        '9'
    }
}

/// Appends `n` in decimal.
pub fn write_decimal(text: &mut String, n: u64)
    ensures
        final(text)@ == old(text)@ + decimal(n as nat),
    decreases n,
{
    if n >= 10 {
        write_decimal(text, n / 10);
    }
    push_char(text, digit_char(n % 10));
}

/// Appends `n` in binary.
fn write_bits(text: &mut String, n: u64)
    ensures
        final(text)@ == old(text)@ + binary(n as nat),
    decreases n,
{
    if n >= 2 {
        write_bits(text, n / 2);
    }
    push_char(text, digit_char(n % 2));
}

/// Appends `i` in binary, prefixed `0b`.
pub fn write_binary(text: &mut String, i: i32)
    ensures
        final(text)@ == old(text)@ + prefixed_binary(i),
{
    push_char(text, '0');
    push_char(text, 'b');
    let bits: u64 = if i < 0 {
        (i as i64 + 0x1_0000_0000) as u64
    } else {
        i as u64
    };
    write_bits(text, bits);
}

/// Whether `c` is one of the ten ASCII digits.
pub open spec fn is_digit(c: char) -> bool {
    0x30 <= c as u32 <= 0x39
}

/// The number a string of digits stands for in decimal.
pub open spec fn digits_value(digits: Seq<char>) -> int
    decreases digits.len(),
{
    if digits.len() == 0 {
        0
    } else {
        digits_value(digits.drop_last()) * 10 + (digits.last() as u32 - 0x30)
    }
}

/// Whether every character is a digit.
pub open spec fn all_digits(text: Seq<char>) -> bool {
    forall|i: int| 0 <= i < text.len() ==> is_digit(#[trigger] text[i])
}

/// `text` without the white space it begins with.
pub open spec fn trim_start(text: Seq<char>) -> Seq<char>
    decreases text.len(),
{
    if text.len() > 0 && is_space(text[0]) {
        trim_start(text.drop_first())
    } else {
        text
    }
}

/// `text` without the white space it ends with.
pub open spec fn trim_end(text: Seq<char>) -> Seq<char>
    decreases text.len(),
{
    if text.len() > 0 && is_space(text.last()) {
        trim_end(text.drop_last())
    } else {
        text
    }
}

/// `text` without the white space around it.
pub open spec fn trim(text: Seq<char>) -> Seq<char> {
    trim_end(trim_start(text))
}

/// The integer that `text` denotes: an optional sign, `+` or `-`, and then
/// one or more digits, nothing else.
pub open spec fn integer(text: Seq<char>) -> Option<int> {
    let signed = text.len() > 0 && (text[0] == '-' || text[0] == '+');
    let digits = if signed {
        text.skip(1)
    } else {
        text
    };
    if digits.len() == 0 || !all_digits(digits) {
        None
    } else if signed && text[0] == '-' {
        Some(-digits_value(digits))
    } else {
        Some(digits_value(digits))
    }
}

/// The 32-bit signed integer that `word` denotes, white space around it
/// aside, where it denotes one that fits.
pub open spec fn fixnum(word: Seq<char>) -> Option<i32> {
    match integer(trim(word)) {
        Some(value) => if i32::MIN <= value <= i32::MAX {
            Some(value as i32)
        } else {
            None
        },
        None => None,
    }
}

/// The first `k` characters are white space and the next one is not.
proof fn lemma_trim_start(text: Seq<char>, k: int)
    requires
        0 <= k <= text.len(),
        forall|j: int| 0 <= j < k ==> is_space(text[j]),
        k < text.len() ==> !is_space(text[k]),
    ensures
        trim_start(text) == text.skip(k),
    decreases k,
{
    if k > 0 {
        lemma_trim_start(text.drop_first(), k - 1);
    }
}

/// The last `text.len() - k` characters are white space and the one before
/// them is not.
proof fn lemma_trim_end(text: Seq<char>, k: int)
    requires
        0 <= k <= text.len(),
        forall|j: int| k <= j < text.len() ==> is_space(text[j]),
        k > 0 ==> !is_space(text[k - 1]),
    ensures
        trim_end(text) == text.take(k),
    decreases text.len() - k,
{
    if k < text.len() {
        lemma_trim_end(text.drop_last(), k);
    }
}

/// A string of digits stands for no less than any string it begins with.
proof fn lemma_digits_grow(digits: Seq<char>, k: int)
    requires
        all_digits(digits),
        0 <= k <= digits.len(),
    ensures
        0 <= digits_value(digits.take(k)) <= digits_value(digits),
    decreases digits.len(),
{
    if k == digits.len() {
        assert(digits.take(k) =~= digits);
        if k > 0 {
            lemma_digits_grow(digits.drop_last(), k - 1);
        }
    } else {
        lemma_digits_grow(digits.drop_last(), k);
        assert(digits.drop_last().take(k) =~= digits.take(k));
    }
}

/// The characters of `text`.
pub fn chars_of(text: &str) -> (letters: Vec<char>)
    ensures
        letters@ == text@,
{
    let mut letters: Vec<char> = Vec::new();
    for c in it: text.chars()
        invariant
            it.seq() == text@,
            letters@ == text@.take(it.index()),
    {
        letters.push(c);
    }
    letters
}

/// Reads `word` as a 32-bit signed integer.
#[verifier::loop_isolation(false)]
pub fn parse_fixnum(word: &str) -> (number: Option<i32>)
    ensures
        number == fixnum(word@),
{
    let letters = chars_of(word);
    let ghost all = letters@;
    let mut a: usize = 0;
    while a < letters.len() && is_whitespace(letters[a])
        invariant
            a <= letters.len(),
            forall|j: int| 0 <= j < a ==> is_space(all[j]),
        decreases letters.len() - a,
    {
        a += 1;
    }
    let mut b: usize = letters.len();
    while b > a && is_whitespace(letters[b - 1])
        invariant
            a <= b <= letters.len(),
            forall|j: int| b <= j < all.len() ==> is_space(all[j]),
        decreases b,
    {
        b -= 1;
    }
    let ghost trimmed = all.subrange(a as int, b as int);
    proof {
        lemma_trim_start(all, a as int);
        let rest = all.skip(a as int);
        lemma_trim_end(rest, b - a);
        assert(trim(word@) == trimmed);
    }
    let mut i: usize = a;
    let mut negative = false;
    if i < b && (letters[i] == '-' || letters[i] == '+') {
        negative = letters[i] == '-';
        i += 1;
    }
    let ghost digits = all.subrange(i as int, b as int);
    assert(digits =~= if i > a {
        trimmed.skip(1)
    } else {
        trimmed
    });
    if i == b {
        return None;
    }
    let mut acc: i64 = 0;
    let mut j: usize = i;
    while j < b
        invariant
            i <= j <= b,
            0 <= acc <= 0x8000_0000,
            acc == digits_value(digits.take(j - i)),
            forall|k: int| 0 <= k < j - i ==> is_digit(#[trigger] digits[k]),
        decreases b - j,
    {
        let c = letters[j];
        if !(c as u32 >= 0x30 && c as u32 <= 0x39) {
            assert(!is_digit(digits[j - i]));
            return None;
        }
        assert(digits.take(j - i + 1).drop_last() =~= digits.take(j - i));
        acc = acc * 10 + (c as u32 - 0x30) as i64;
        if acc > 0x8000_0000 {
            proof {
                if all_digits(digits) {
                    lemma_digits_grow(digits, j - i + 1);
                }
            }
            return None;
        }
        j += 1;
    }
    assert(digits.take(b - i) =~= digits);
    if negative {
        Some((-acc) as i32)
    } else if acc > 0x7fff_ffff {
        None
    } else {
        Some(acc as i32)
    }
}

} // verus!
