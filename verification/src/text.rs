//! Text: numbers in decimal and hexadecimal, letter case, white space.
use vstd::prelude::*;
use vstd::string::*;

verus! {

/// `String::push` appends one character.
pub assume_specification[ String::push ](s: &mut String, c: char)
    ensures
        final(s)@ == old(s)@.push(c),
;

/// The characters of a text as a list.
pub fn chars_of(s: &str) -> (r: Vec<char>)
    ensures
        r@ == s@,
{
    let mut out: Vec<char> = Vec::new();
    for c in it: s.chars()
        invariant
            it.seq() == s@,
            out@ == it.seq().take(it.index() as int),
    {
        out.push(c);
    }
    out
}

/// A text from a part of a list of characters.
pub fn text_of(chars: &[char], start: usize, end: usize) -> (r: String)
    requires
        start <= end <= chars@.len(),
    ensures
        r@ == chars@.subrange(start as int, end as int),
{
    let mut out = String::new();
    let mut i: usize = start;
    assert(chars@.subrange(start as int, start as int) =~= seq![]);
    while i < end
        invariant
            start <= i <= end <= chars@.len(),
            out@ == chars@.subrange(start as int, i as int),
        decreases end - i,
    {
        out.push(chars[i]);
        assert(chars@.subrange(start as int, i as int).push(chars@[i as int]) =~= chars@.subrange(
            start as int,
            i + 1,
        ));
        i += 1;
    }
    out
}

/// Whether a list of characters spells the given text.
pub fn spells(chars: &[char], text: &str) -> (r: bool)
    ensures
        r == (chars@ == text@),
{
    let other = chars_of(text);
    if chars.len() != other.len() {
        return false;
    }
    let mut i: usize = 0;
    while i < chars.len()
        invariant
            i <= chars@.len() == other@.len(),
            other@ == text@,
            chars@.take(i as int) == other@.take(i as int),
        decreases chars@.len() - i,
    {
        if chars[i] != other[i] {
            assert(chars@[i as int] != text@[i as int]);
            return false;
        }
        assert(chars@.take(i + 1) =~= chars@.take(i as int).push(chars@[i as int]));
        assert(other@.take(i + 1) =~= other@.take(i as int).push(other@[i as int]));
        i += 1;
    }
    assert(chars@.take(i as int) =~= chars@);
    assert(other@.take(i as int) =~= other@);
    true
}

/// Whether two texts are the same.
pub fn same_text(a: &str, b: &str) -> (r: bool)
    ensures
        r == (a@ == b@),
{
    let chars = chars_of(a);
    spells(chars.as_slice(), b)
}

/// A new text with the given contents.
pub fn text(s: &str) -> (r: String)
    ensures
        r@ == s@,
{
    s.to_owned()
}

/// The character of a decimal digit.
pub open spec fn digit_char(d: int) -> char {
    (48 + d) as char
}

/// A number in decimal, without leading zeros.
pub open spec fn decimal(n: nat) -> Seq<char>
    decreases n,
{
    if n < 10 {
        seq![digit_char(n as int)]
    } else {
        decimal(n / 10).push(digit_char(n as int % 10))
    }
}

/// Appends a number in decimal.
pub fn push_decimal(out: &mut String, n: u64)
    ensures
        final(out)@ == old(out)@ + decimal(n as nat),
    decreases n,
{
    if n >= 10 {
        push_decimal(out, n / 10);
    }
    let digit: u8 = (n % 10) as u8;
    out.push((48 + digit) as char);
    assert(out@ =~= old(out)@ + decimal(n as nat));
}

/// A number in decimal as a text of its own.
pub fn decimal_text(n: u64) -> (r: String)
    ensures
        r@ == decimal(n as nat),
{
    let mut out = String::new();
    push_decimal(&mut out, n);
    assert(out@ =~= decimal(n as nat));
    out
}

/// A decimal digit.
pub open spec fn is_digit(c: char) -> bool {
    '0' <= c <= '9'
}

/// The number that a list of decimal digits spells.
pub open spec fn digits_value(s: Seq<char>) -> nat
    decreases s.len(),
{
    if s.len() == 0 {
        0
    } else {
        digits_value(s.drop_last()) * 10 + (s.last() as u32 - 48) as nat
    }
}

/// The digits of a number, behind a plus sign if there is one.
pub open spec fn without_plus(s: Seq<char>) -> Seq<char> {
    if s.len() > 0 && s[0] == '+' {
        s.skip(1)
    } else {
        s
    }
}

/// The `u64` that a text spells: decimal digits, at least one, with a plus
/// sign allowed in front, of a number that fits.
pub open spec fn parse_decimal(s: Seq<char>) -> Option<u64> {
    let digits = without_plus(s);
    if digits.len() > 0 && (forall|i: int| 0 <= i < digits.len() ==> is_digit(#[trigger] digits[i]))
        && digits_value(digits) <= u64::MAX {
        Some(digits_value(digits) as u64)
    } else {
        None
    }
}

/// Leaving digits off the end makes the number no larger.
proof fn lemma_digits_value_prefix(s: Seq<char>, k: int)
    requires
        0 <= k <= s.len(),
        forall|i: int| 0 <= i < s.len() ==> is_digit(#[trigger] s[i]),
    ensures
        digits_value(s.take(k)) <= digits_value(s),
    decreases s.len(),
{
    if k < s.len() {
        assert forall|i: int| 0 <= i < s.drop_last().len() implies is_digit(
            #[trigger] s.drop_last()[i],
        ) by {
            assert(is_digit(s[i]));
        }
        lemma_digits_value_prefix(s.drop_last(), k);
        assert(s.drop_last().take(k) =~= s.take(k));
        assert(is_digit(s.last()));
    } else {
        assert(s.take(k) =~= s);
    }
}

/// Reads a decimal number from a list of characters.
pub fn parse_decimal_chars(chars: &[char]) -> (r: Option<u64>)
    ensures
        r == parse_decimal(chars@),
{
    let mut i: usize = if chars.len() > 0 && chars[0] == '+' {
        1
    } else {
        0
    };
    let ghost digits = without_plus(chars@);
    let ghost first = i as int;
    if i == chars.len() {
        return None;
    }
    assert(digits =~= chars@.skip(first));
    let mut value: u64 = 0;
    assert(digits.take(0) =~= seq![]);
    while i < chars.len()
        invariant
            digits == without_plus(chars@),
            digits == chars@.skip(first),
            0 <= first <= i <= chars@.len(),
            first <= 1,
            first < chars@.len(),
            forall|j: int| 0 <= j < i - first ==> is_digit(#[trigger] digits[j]),
            value == digits_value(digits.take(i - first)),
        decreases chars@.len() - i,
    {
        let c = chars[i];
        assert(digits[i - first] == c);
        if c < '0' || c > '9' {
            return None;
        }
        let digit: u64 = (c as u32 - 48) as u64;
        proof {
            let next = digits.take(i + 1 - first);
            assert(next.drop_last() =~= digits.take(i - first));
            assert(digits_value(next) == value * 10 + digit);
            if value * 10 + digit > u64::MAX && (forall|j: int|
                0 <= j < digits.len() ==> is_digit(#[trigger] digits[j])) {
                lemma_digits_value_prefix(digits, i + 1 - first);
            }
        }
        if value > u64::MAX / 10 || value * 10 > u64::MAX - digit {
            return None;
        }
        value = value * 10 + digit;
        i += 1;
    }
    assert(digits.take(i - first) =~= digits);
    Some(value)
}

/// The digits of a number in decimal spell that number.
pub proof fn lemma_decimal_digits(n: nat)
    ensures
        decimal(n).len() > 0,
        forall|i: int| 0 <= i < decimal(n).len() ==> is_digit(#[trigger] decimal(n)[i]),
        digits_value(decimal(n)) == n,
    decreases n,
{
    if n < 10 {
        assert(decimal(n).drop_last() =~= seq![]);
        assert(digits_value(decimal(n).drop_last()) == 0);
    } else {
        lemma_decimal_digits(n / 10);
        assert(decimal(n).drop_last() =~= decimal(n / 10));
        assert forall|i: int| 0 <= i < decimal(n).len() implies is_digit(
            #[trigger] decimal(n)[i],
        ) by {
            if i < decimal(n / 10).len() {
                assert(is_digit(decimal(n / 10)[i]));
            }
        }
    }
}

/// Reading a number that was written in decimal gives the number back.
pub proof fn lemma_decimal_round_trip(n: u64)
    ensures
        parse_decimal(decimal(n as nat)) == Some(n),
{
    lemma_decimal_digits(n as nat);
    assert(is_digit(decimal(n as nat)[0]));
    assert(without_plus(decimal(n as nat)) == decimal(n as nat));
}

/// The character of a hexadecimal digit, in lower case.
pub open spec fn hex_char(d: int) -> char {
    if d < 10 {
        (48 + d) as char
    } else {
        (87 + d) as char
    }
}

/// A lower-case hexadecimal digit.
pub open spec fn is_hex_char(c: char) -> bool {
    '0' <= c <= '9' || 'a' <= c <= 'f'
}

/// Bytes in lower-case hexadecimal: two digits for each, the high one first.
pub open spec fn hex_text(bytes: Seq<u8>) -> Seq<char> {
    Seq::new(
        bytes.len() * 2,
        |i: int|
            if i % 2 == 0 {
                hex_char(bytes[i / 2] as int / 16)
            } else {
                hex_char(bytes[i / 2] as int % 16)
            },
    )
}

/// The character of a hexadecimal digit.
fn hex_digit(d: u8) -> (r: char)
    requires
        d < 16,
    ensures
        r == hex_char(d as int),
{
    if d < 10 {
        (48 + d) as char
    } else {
        (87 + d) as char
    }
}

/// Appends a byte as two hexadecimal digits.
pub fn push_hex_byte(out: &mut String, byte: u8)
    ensures
        final(out)@ == old(out)@.push(hex_char(byte as int / 16)).push(hex_char(byte as int % 16)),
{
    out.push(hex_digit(byte / 16));
    out.push(hex_digit(byte % 16));
}

/// Hexadecimal text holds hexadecimal digits only.
pub proof fn lemma_hex_text_chars(bytes: Seq<u8>)
    ensures
        hex_text(bytes).len() == bytes.len() * 2,
        forall|i: int| 0 <= i < hex_text(bytes).len() ==> is_hex_char(#[trigger] hex_text(bytes)[i]),
{
}

/// The characters with the Unicode property White_Space.
pub open spec fn white_space(c: char) -> bool {
    let n = c as u32;
    ||| 0x9 <= n <= 0xD
    ||| n == 0x20 || n == 0x85 || n == 0xA0 || n == 0x1680
    ||| 0x2000 <= n <= 0x200A
    ||| n == 0x2028 || n == 0x2029 || n == 0x202F || n == 0x205F || n == 0x3000
}

/// Checks if a character is white space.
pub fn is_white_space(c: char) -> (r: bool)
    ensures
        r == white_space(c),
{
    let n: u32 = c as u32;
    (0x9 <= n && n <= 0xD) || n == 0x20 || n == 0x85 || n == 0xA0 || n == 0x1680 || (0x2000 <= n
        && n <= 0x200A) || n == 0x2028 || n == 0x2029 || n == 0x202F || n == 0x205F || n == 0x3000
}

/// An ASCII letter in lower case, any other character as it is.
pub open spec fn ascii_lower(c: char) -> char {
    if 'A' <= c <= 'Z' {
        (c as u32 + 32) as char
    } else {
        c
    }
}

/// Whether a text spells `lower` when its ASCII letters are put in lower case.
pub open spec fn spells_ignoring_case(s: Seq<char>, lower: Seq<char>) -> bool {
    s.map_values(|c: char| ascii_lower(c)) == lower
}

/// An ASCII letter in lower case.
fn to_ascii_lower(c: char) -> (r: char)
    ensures
        r == ascii_lower(c),
{
    if 'A' <= c && c <= 'Z' {
        ((c as u32 + 32) as u8) as char
    } else {
        c
    }
}

/// Puts the ASCII letters of a text in lower case.
pub fn lowered(s: &str) -> (r: Vec<char>)
    ensures
        r@ == s@.map_values(|c: char| ascii_lower(c)),
{
    let chars = chars_of(s);
    let mut out: Vec<char> = Vec::new();
    let mut i: usize = 0;
    while i < chars.len()
        invariant
            i <= chars@.len(),
            chars@ == s@,
            out@ == s@.take(i as int).map_values(|c: char| ascii_lower(c)),
        decreases chars@.len() - i,
    {
        out.push(to_ascii_lower(chars[i]));
        assert(out@ =~= s@.take(i + 1).map_values(|c: char| ascii_lower(c)));
        i += 1;
    }
    assert(s@.take(i as int) =~= s@);
    out
}

/// A digit that is appended makes ten times the number and its own value.
pub proof fn lemma_digit_appended(s: Seq<char>, c: char)
    requires
        48 <= c as int <= 57,
    ensures
        digits_value(s.push(c)) == 10 * digits_value(s) + (c as int - 48),
        digits_value(seq![]) == 0,
{
    assert(s.push(c).drop_last() =~= s);
}

/// A number in decimal has no zero in front, but for zero itself.
pub proof fn lemma_no_leading_zero(n: nat)
    ensures
        n > 0 ==> decimal(n)[0] != '0',
        decimal(0) == seq!['0'],
    decreases n,
{
    if n >= 10 {
        lemma_no_leading_zero(n / 10);
        lemma_decimal_digits(n / 10);
        assert(decimal(n)[0] == decimal(n / 10)[0]);
    }
}

/// A text of digits reads as its number, with or without a plus sign, as long
/// as the number fits 64 bits; a text with another character among them, or
/// without a digit, reads as none.
pub proof fn lemma_number_read(s: Seq<char>, at: int)
    ensures
        s.len() > 0 && (forall|i: int| 0 <= i < s.len() ==> '0' <= #[trigger] s[i] <= '9') ==> {
            let n = digits_value(s);
            &&& n <= u64::MAX ==> parse_decimal(s) == Some(n as u64) && parse_decimal(seq!['+'] + s)
                == Some(n as u64)
            &&& n > u64::MAX ==> parse_decimal(s) is None && parse_decimal(seq!['+'] + s) is None
        },
        0 < at < s.len() && !('0' <= s[at] <= '9') ==> parse_decimal(s) is None,
        s.len() > 0 && !('0' <= s[0] <= '9' || s[0] == '+') ==> parse_decimal(s) is None,
        s.len() == 0 || s == seq!['+'] ==> parse_decimal(s) is None,
{
    let signed = seq!['+'] + s;
    assert(signed.skip(1) =~= s);
    if s.len() > 0 && (forall|i: int| 0 <= i < s.len() ==> '0' <= #[trigger] s[i] <= '9') {
        assert('0' <= s[0] <= '9');
        assert(without_plus(s) == s);
        assert(without_plus(signed) == s);
        assert(forall|i: int| 0 <= i < s.len() ==> is_digit(#[trigger] s[i]));
    }
    if 0 < at < s.len() && !('0' <= s[at] <= '9') {
        let digits = without_plus(s);
        let k = if s[0] == '+' {
            at - 1
        } else {
            at
        };
        assert(digits[k] == s[at]);
        assert(!is_digit(digits[k]));
    }
    if s.len() > 0 && !('0' <= s[0] <= '9' || s[0] == '+') {
        assert(!is_digit(without_plus(s)[0]));
    }
}

/// Different bytes have different texts in hexadecimal.
pub proof fn lemma_hex_text_distinct(a: Seq<u8>, b: Seq<u8>)
    requires
        hex_text(a) == hex_text(b),
    ensures
        a == b,
{
    assert(hex_text(a).len() == a.len() * 2 && hex_text(b).len() == b.len() * 2);
    assert forall|i: int| 0 <= i < a.len() implies a[i] == b[i] by {
        assert(hex_text(a)[2 * i] == hex_text(b)[2 * i]);
        assert(hex_text(a)[2 * i + 1] == hex_text(b)[2 * i + 1]);
        assert(2 * i / 2 == i && (2 * i + 1) / 2 == i && 2 * i % 2 == 0 && (2 * i + 1) % 2 == 1);
        assert(hex_text(a)[2 * i] == hex_char(a[i] as int / 16));
        assert(hex_text(b)[2 * i] == hex_char(b[i] as int / 16));
        assert(hex_text(a)[2 * i + 1] == hex_char(a[i] as int % 16));
        assert(hex_text(b)[2 * i + 1] == hex_char(b[i] as int % 16));
        lemma_hex_chars_distinct(a[i] as int / 16, b[i] as int / 16);
        lemma_hex_chars_distinct(a[i] as int % 16, b[i] as int % 16);
    }
    assert(a =~= b);
}

/// Different digits are different characters.
proof fn lemma_hex_chars_distinct(a: int, b: int)
    requires
        0 <= a < 16,
        0 <= b < 16,
        hex_char(a) == hex_char(b),
    ensures
        a == b,
{
    assert(hex_char(a) as int == if a < 10 {
        48 + a
    } else {
        87 + a
    });
    assert(hex_char(b) as int == if b < 10 {
        48 + b
    } else {
        87 + b
    });
}

/// White space in ASCII is the space and the five control characters from the
/// tab to the carriage return.
pub proof fn lemma_ascii_white_space(c: char)
    requires
        (c as int) < 0x80,
    ensures
        white_space(c) <==> c == ' ' || 9 <= c as int <= 13,
{
}

} // verus!
