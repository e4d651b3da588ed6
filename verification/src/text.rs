//! Decimal numerals, integer parsing and the character classes that the
//! protocol relies on.

use vstd::prelude::*;
use vstd::string::*;

verus! {

/// The digit `0`; the other digits follow it.
pub const DIGIT_ZERO: u8 = 0x30;

/// The minus sign.
pub const MINUS: u8 = 0x2d;

/// The ASCII code of the decimal digit `d`.
pub open spec fn digit(d: nat) -> u8
    recommends
        d < 10,
{
    (DIGIT_ZERO + d) as u8
}

/// The decimal numeral of `n` in ASCII, most significant digit first and
/// without leading zeros.
pub open spec fn decimal(n: nat) -> Seq<u8>
    decreases n,
{
    if n < 10 {
        seq![digit(n)]
    } else {
        decimal(n / 10).push(digit(n % 10))
    }
}

/// The decimal numeral of `n`, with a minus sign in front of a negative
/// number and no sign otherwise.
pub open spec fn signed_decimal(n: int) -> Seq<u8> {
    if n < 0 {
        seq![MINUS] + decimal((-n) as nat)
    } else {
        decimal(n as nat)
    }
}

/// The decimal numeral of `n` as text.
pub open spec fn decimal_text(n: nat) -> Seq<char> {
    decimal(n).map_values(|b: u8| b as char)
}

/// Every byte of a decimal numeral is an ASCII digit.
pub proof fn lemma_decimal_digits(n: nat)
    ensures
        decimal(n).len() >= 1,
        forall|i: int| 0 <= i < decimal(n).len() ==> 0x30 <= #[trigger] decimal(n)[i] <= 0x39,
    decreases n,
{
    if n >= 10 {
        lemma_decimal_digits(n / 10);
    }
}

/// Appends the decimal numeral of `n` to `out`.
pub fn push_decimal(out: &mut Vec<u8>, n: u64)
    ensures
        final(out)@ == old(out)@ + decimal(n as nat),
    decreases n,
{
    if n >= 10 {
        push_decimal(out, n / 10);
    }
    let d: u8 = (n % 10) as u8;
    out.push(DIGIT_ZERO + d);
}

/// Appends the signed decimal numeral of `n` to `out`.
pub fn push_signed_decimal(out: &mut Vec<u8>, n: i64)
    ensures
        final(out)@ == old(out)@ + signed_decimal(n as int),
{
    if n >= 0 {
        push_decimal(out, n as u64);
    } else {
        out.push(MINUS);
        let magnitude: u64 = (-(n + 1)) as u64 + 1;
        push_decimal(out, magnitude);
    }
}

/// The decimal numeral of `n` as a string.
pub fn u64_to_string(n: u64) -> (s: String)
    ensures
        s@ == decimal_text(n as nat),
{
    let mut digits: Vec<u8> = Vec::new();
    push_decimal(&mut digits, n);
    let numerals: &str = "0123456789";
    let mut s = String::new();
    let mut i: usize = 0;
    proof {
        reveal_strlit("0123456789");
        lemma_decimal_digits(n as nat);
    }
    while i < digits.len()
        invariant
            i <= digits.len(),
            digits@ == decimal(n as nat),
            numerals@ == seq!['0', '1', '2', '3', '4', '5', '6', '7', '8', '9'],
            numerals.is_ascii(),
            forall|k: int| 0 <= k < digits@.len() ==> 0x30 <= #[trigger] digits@[k] <= 0x39,
            s@ == decimal_text(n as nat).take(i as int),
        decreases digits.len() - i,
    {
        let d: usize = (digits[i] - 0x30u8) as usize;
        let one = numerals.substring_ascii(d, d + 1);
        s.append(one);
        proof {
            assert(one@ =~= seq![digits@[i as int] as char]);
            assert(decimal_text(n as nat).take(i + 1) =~= decimal_text(n as nat).take(i as int)
                + seq![digits@[i as int] as char]);
        }
        i += 1;
    }
    assert(decimal_text(n as nat).take(i as int) =~= decimal_text(n as nat));
    s
}

/// The items of a list as a reply integer: the count itself, or the largest
/// integer a reply can hold where the count is beyond it.
pub open spec fn count_as_i64(n: nat) -> i64 {
    if n <= i64::MAX {
        n as i64
    } else {
        i64::MAX
    }
}

/// Converts a length to a reply integer.
pub fn count_to_i64(n: usize) -> (r: i64)
    ensures
        r == count_as_i64(n as nat),
{
    if n as u64 <= i64::MAX as u64 {
        n as i64
    } else {
        i64::MAX
    }
}

/// The characters of `s`, in order.
pub fn chars_of(s: &str) -> (v: Vec<char>)
    ensures
        v@ == s@,
{
    let mut v: Vec<char> = Vec::new();
    for c in it: s.chars()
        invariant
            v@ == s@.take(it.index() as int),
            it.seq() == s@,
    {
        v.push(c);
    }
    v
}

/// Whether `c` is white space: the characters with Unicode's `White_Space`
/// property.
pub open spec fn is_whitespace(c: char) -> bool {
    let u = c as u32;
    ||| 0x09 <= u <= 0x0d
    ||| u == 0x20
    ||| u == 0x85
    ||| u == 0xa0
    ||| u == 0x1680
    ||| 0x2000 <= u <= 0x200a
    ||| u == 0x2028
    ||| u == 0x2029
    ||| u == 0x202f
    ||| u == 0x205f
    ||| u == 0x3000
}

/// Tests a character for white space.
pub fn char_is_whitespace(c: char) -> (b: bool)
    ensures
        b == is_whitespace(c),
{
    let u: u32 = c as u32;
    (0x09 <= u && u <= 0x0d) || u == 0x20 || u == 0x85 || u == 0xa0 || u == 0x1680 || (0x2000 <= u
        && u <= 0x200a) || u == 0x2028 || u == 0x2029 || u == 0x202f || u == 0x205f || u == 0x3000
}

/// Whether `c` is an ASCII decimal digit.
pub open spec fn is_digit(c: char) -> bool {
    0x30 <= c as u32 <= 0x39
}

/// Whether `s` consists of ASCII decimal digits only.
pub open spec fn all_digits(s: Seq<char>) -> bool {
    forall|i: int| 0 <= i < s.len() ==> is_digit(#[trigger] s[i])
}

/// The number that a string of decimal digits denotes.
pub open spec fn digits_value(s: Seq<char>) -> nat
    decreases s.len(),
{
    if s.len() == 0 {
        0
    } else {
        digits_value(s.drop_last()) * 10 + (s.last() as u32 - 0x30) as nat
    }
}

/// The number that `s` denotes as an unsigned decimal: an optional `+`, then
/// at least one digit. `None` where `s` has another form.
pub open spec fn parse_unsigned(s: Seq<char>) -> Option<nat> {
    let body = if s.len() > 0 && s[0] == '+' {
        s.skip(1)
    } else {
        s
    };
    if body.len() > 0 && all_digits(body) {
        Some(digits_value(body))
    } else {
        None
    }
}

/// The number that `s` denotes as a signed decimal: an optional `+` or `-`,
/// then at least one digit. `None` where `s` has another form.
pub open spec fn parse_signed(s: Seq<char>) -> Option<int> {
    if s.len() > 0 && s[0] == '-' {
        let body = s.skip(1);
        if body.len() > 0 && all_digits(body) {
            Some(-(digits_value(body) as int))
        } else {
            None
        }
    } else {
        match parse_unsigned(s) {
            Some(n) => Some(n as int),
            None => None,
        }
    }
}

/// `s` read as an unsigned 64-bit integer; `None` where it is no unsigned
/// decimal or does not fit.
pub open spec fn parse_u64(s: Seq<char>) -> Option<u64> {
    match parse_unsigned(s) {
        Some(n) => if n <= u64::MAX {
            Some(n as u64)
        } else {
            None
        },
        None => None,
    }
}

/// `s` read as a signed 64-bit integer; `None` where it is no signed decimal
/// or does not fit.
pub open spec fn parse_i64(s: Seq<char>) -> Option<i64> {
    match parse_signed(s) {
        Some(n) => if i64::MIN <= n <= i64::MAX {
            Some(n as i64)
        } else {
            None
        },
        None => None,
    }
}

/// Writing a number and reading it back gives the number: its numeral is
/// made of digits, and they denote it.
pub proof fn lemma_decimal_text_denotes(n: nat)
    ensures
        decimal_text(n).len() >= 1,
        all_digits(decimal_text(n)),
        digits_value(decimal_text(n)) == n,
    decreases n,
{
    lemma_decimal_digits(n);
    let text = decimal_text(n);
    assert forall|i: int| 0 <= i < text.len() implies is_digit(#[trigger] text[i]) by {
        assert(text[i] == decimal(n)[i] as char);
    }
    if n < 10 {
        assert(text.drop_last() =~= Seq::<char>::empty());
        assert(digits_value(text.drop_last()) == 0);
    } else {
        lemma_decimal_text_denotes(n / 10);
        assert(text.drop_last() =~= decimal_text(n / 10));
        assert(text.last() == digit(n % 10) as char);
    }
}

/// A string of digits denotes at least what any of its prefixes denotes.
pub proof fn lemma_digits_value_prefix(s: Seq<char>, k: int)
    requires
        0 <= k <= s.len(),
    ensures
        digits_value(s.take(k)) <= digits_value(s),
    decreases s.len() - k,
{
    if k == s.len() {
        assert(s.take(k) =~= s);
    } else {
        lemma_digits_value_prefix(s.drop_last(), k);
        assert(s.drop_last().take(k) =~= s.take(k));
    }
}

/// The magnitude that the digits `chars[from..to]` denote, where they are
/// digits, at least one, and the number fits in 64 bits.
pub open spec fn magnitude(s: Seq<char>) -> Option<u64> {
    if s.len() > 0 && all_digits(s) && digits_value(s) <= u64::MAX {
        Some(digits_value(s) as u64)
    } else {
        None
    }
}

/// Reads the digits `chars[from..to]`.
pub fn read_magnitude(chars: &Vec<char>, from: usize, to: usize) -> (r: Option<u64>)
    requires
        from <= to <= chars@.len(),
    ensures
        r == magnitude(chars@.subrange(from as int, to as int)),
{
    let ghost s = chars@.subrange(from as int, to as int);
    if from == to {
        return None;
    }
    let mut acc: u64 = 0;
    let mut i: usize = from;
    while i < to
        invariant
            from <= i <= to <= chars@.len(),
            s == chars@.subrange(from as int, to as int),
            all_digits(s.take(i - from)),
            acc == digits_value(s.take(i - from)),
        decreases to - i,
    {
        let c: char = chars[i];
        let u: u32 = c as u32;
        proof {
            assert(s[i - from] == c);
            assert(s.take(i - from + 1).drop_last() =~= s.take(i - from));
            assert(s.take(i - from + 1).last() == c);
        }
        if !(0x30 <= u && u <= 0x39) {
            return None;
        }
        let d: u64 = (u - 0x30) as u64;
        proof {
            lemma_digits_value_prefix(s, i - from + 1);
        }
        match acc.checked_mul(10) {
            None => {
                return None;
            },
            Some(shifted) => match shifted.checked_add(d) {
                None => {
                    return None;
                },
                Some(next) => {
                    acc = next;
                },
            },
        }
        proof {
            assert forall|k: int| 0 <= k < s.take(i - from + 1).len() implies is_digit(
                #[trigger] s.take(i - from + 1)[k],
            ) by {
                if k < i - from {
                    assert(s.take(i - from)[k] == s.take(i - from + 1)[k]);
                }
            }
        }
        i += 1;
    }
    assert(s.take(to - from) =~= s);
    Some(acc)
}

/// Reads `chars[from..to]` as an unsigned 64-bit integer.
pub fn read_u64(chars: &Vec<char>, from: usize, to: usize) -> (r: Option<u64>)
    requires
        from <= to <= chars@.len(),
    ensures
        r == parse_u64(chars@.subrange(from as int, to as int)),
{
    let ghost s = chars@.subrange(from as int, to as int);
    if from < to && chars[from] == '+' {
        assert(s.skip(1) =~= chars@.subrange(from + 1, to as int));
        read_magnitude(chars, from + 1, to)
    } else {
        read_magnitude(chars, from, to)
    }
}

/// Reads `chars[from..to]` as a signed 64-bit integer.
pub fn read_i64(chars: &Vec<char>, from: usize, to: usize) -> (r: Option<i64>)
    requires
        from <= to <= chars@.len(),
    ensures
        r == parse_i64(chars@.subrange(from as int, to as int)),
{
    let ghost s = chars@.subrange(from as int, to as int);
    if from < to && chars[from] == '-' {
        assert(s.skip(1) =~= chars@.subrange(from + 1, to as int));
        match read_magnitude(chars, from + 1, to) {
            None => {
                proof {
                    let body = s.skip(1);
                    if body.len() > 0 && all_digits(body) {
                        assert(digits_value(body) > u64::MAX);
                    }
                }
                None
            },
            Some(m) => {
                if m <= i64::MAX as u64 {
                    Some(-(m as i64))
                } else if m == i64::MAX as u64 + 1 {
                    Some(i64::MIN)
                } else {
                    None
                }
            },
        }
    } else {
        match read_u64(chars, from, to) {
            None => {
                proof {
                    if parse_unsigned(s) is Some {
                        assert(parse_unsigned(s)->0 > u64::MAX);
                    }
                }
                None
            },
            Some(m) => {
                if m <= i64::MAX as u64 {
                    Some(m as i64)
                } else {
                    None
                }
            },
        }
    }
}

/// Reads a whole string as an unsigned 64-bit integer.
pub fn str_to_u64(s: &str) -> (r: Option<u64>)
    ensures
        r == parse_u64(s@),
{
    let chars = chars_of(s);
    assert(chars@.subrange(0, chars@.len() as int) =~= chars@);
    read_u64(&chars, 0, chars.len())
}

/// Reads a whole string as a signed 64-bit integer.
pub fn str_to_i64(s: &str) -> (r: Option<i64>)
    ensures
        r == parse_i64(s@),
{
    let chars = chars_of(s);
    assert(chars@.subrange(0, chars@.len() as int) =~= chars@);
    read_i64(&chars, 0, chars.len())
}

/// The code of `c` with the ASCII capitals folded onto the small letters.
pub open spec fn folded(c: char) -> u32 {
    if 0x41 <= c as u32 <= 0x5a {
        (c as u32 + 0x20) as u32
    } else {
        c as u32
    }
}

/// Whether `s` is the word `word` when ASCII letter case is ignored in `s`.
/// `word` is meant to be in small letters.
pub open spec fn is_word(s: Seq<char>, word: Seq<char>) -> bool {
    &&& s.len() == word.len()
    &&& forall|i: int| 0 <= i < s.len() ==> folded(#[trigger] s[i]) == word[i] as u32
}

/// Tests `chars` for the word `word`, ignoring ASCII letter case in `chars`.
pub fn chars_are_word(chars: &Vec<char>, word: &str) -> (b: bool)
    ensures
        b == is_word(chars@, word@),
{
    let letters = chars_of(word);
    if chars.len() != letters.len() {
        return false;
    }
    let mut i: usize = 0;
    while i < chars.len()
        invariant
            i <= chars@.len(),
            chars@.len() == letters@.len(),
            letters@ == word@,
            forall|k: int| 0 <= k < i ==> folded(#[trigger] chars@[k]) == letters@[k] as u32,
        decreases chars.len() - i,
    {
        let u: u32 = chars[i] as u32;
        let f: u32 = if 0x41 <= u && u <= 0x5a {
            u + 0x20
        } else {
            u
        };
        if f != letters[i] as u32 {
            return false;
        }
        i += 1;
    }
    true
}

/// Tests a string for the word `word`, ignoring ASCII letter case in it.
pub fn str_is_word(s: &str, word: &str) -> (b: bool)
    ensures
        b == is_word(s@, word@),
{
    let chars = chars_of(s);
    chars_are_word(&chars, word)
}

} // verus!
