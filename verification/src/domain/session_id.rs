//! Session ids and how they are written: as UUIDs.
use crate::domain::ClientSessionId;
use crate::text::{ascii_lower, hex_char, spells_ignoring_case};
use uuid::Uuid;
use vstd::prelude::*;

verus! {

/// The value of a hexadecimal digit of either case.
pub open spec fn hex_digit_value(c: char) -> Option<int> {
    if '0' <= c <= '9' {
        Some(c as int - '0' as int)
    } else if 'a' <= c <= 'f' {
        Some(c as int - 'a' as int + 10)
    } else if 'A' <= c <= 'F' {
        Some(c as int - 'A' as int + 10)
    } else {
        None
    }
}

/// The number that a list of hexadecimal digits spells.
pub open spec fn hex_value(digits: Seq<char>) -> int
    decreases digits.len(),
{
    if digits.len() == 0 {
        0
    } else {
        hex_value(digits.drop_last()) * 16 + hex_digit_value(digits.last())->0
    }
}

/// The last `count` hexadecimal digits of a number.
pub open spec fn hex_digits(n: int, count: nat) -> Seq<char>
    decreases count,
{
    if count == 0 {
        seq![]
    } else {
        hex_digits(n / 16, (count - 1) as nat).push(hex_char(n % 16))
    }
}

/// Thirty-two digits in groups of 8, 4, 4, 4 and 12.
pub open spec fn hyphenated(digits: Seq<char>) -> Seq<char> {
    digits.subrange(0, 8).push('-') + digits.subrange(8, 12).push('-') + digits.subrange(
        12,
        16,
    ).push('-') + digits.subrange(16, 20).push('-') + digits.subrange(20, 32)
}

/// The digits of a hyphenated text.
pub open spec fn ungrouped(s: Seq<char>) -> Seq<char> {
    s.subrange(0, 8) + s.subrange(9, 13) + s.subrange(14, 18) + s.subrange(19, 23) + s.subrange(
        24,
        36,
    )
}

/// A session id in text: lower-case digits, hyphenated.
pub open spec fn session_id_chars(id: ClientSessionId) -> Seq<char> {
    hyphenated(hex_digits(id as int, 32))
}

/// The id that thirty-two hexadecimal digits spell.
pub open spec fn digits_id(digits: Seq<char>) -> Option<ClientSessionId> {
    if digits.len() == 32 && forall|i: int|
        0 <= i < 32 ==> hex_digit_value(#[trigger] digits[i]) is Some {
        Some(hex_value(digits) as u128)
    } else {
        None
    }
}

/// The id that a hyphenated text spells.
pub open spec fn hyphenated_id(s: Seq<char>) -> Option<ClientSessionId> {
    if s.len() == 36 && s[8] == '-' && s[13] == '-' && s[18] == '-' && s[23] == '-' {
        digits_id(ungrouped(s))
    } else {
        None
    }
}

/// The id that a text spells: digits alone or hyphenated, the latter also in
/// braces or behind `urn:uuid:`.
pub open spec fn session_id_of(s: Seq<char>) -> Option<ClientSessionId> {
    if s.len() == 32 {
        digits_id(s)
    } else if s.len() == 36 {
        hyphenated_id(s)
    } else if s.len() == 38 && s[0] == '{' && s[37] == '}' {
        hyphenated_id(s.subrange(1, 37))
    } else if s.len() == 45 && spells_ignoring_case(s.take(9), "urn:uuid:"@) {
        hyphenated_id(s.skip(9))
    } else {
        None
    }
}

/// `Uuid::to_string` writes the 128 bits as lower-case hexadecimal digits in
/// groups of 8, 4, 4, 4 and 12, with hyphens between them.
#[verifier::external_body]
pub(crate) fn session_id_text(id: ClientSessionId) -> (r: String)
    ensures
        r@ == session_id_chars(id),
{
    Uuid::from_u128(id).to_string()
}

/// `Uuid::parse_str` reads hexadecimal digits of either case: thirty-two of
/// them, or the hyphenated groups, which may stand in braces or behind
/// `urn:uuid:` in either case. Anything else it refuses.
#[verifier::external_body]
pub(crate) fn parse_session_id(s: &str) -> (r: Option<ClientSessionId>)
    ensures
        r == session_id_of(s@),
{
    Uuid::parse_str(s).ok().map(|id| id.as_u128())
}

/// The version of the id is 4 and its variant bits are 1 and 0, as in every id
/// that is made at random.
pub open spec fn is_version_4(id: ClientSessionId) -> bool {
    &&& id as int / 0x1000_0000_0000_0000_0000 % 16 == 4
    &&& id as int / 0x4000_0000_0000_0000 % 4 == 2
}

/// `Uuid::new_v4` yields random bits, but for the version, which is 4, and
/// the variant, whose two bits are 1 and 0.
#[verifier::external_body]
pub(crate) fn new_session_id() -> (r: ClientSessionId)
    ensures
        is_version_4(r),
{
    Uuid::new_v4().as_u128()
}

/// Sixteen to the power of `k`.
spec fn power_of_16(k: nat) -> int
    decreases k,
{
    if k == 0 {
        1
    } else {
        16 * power_of_16((k - 1) as nat)
    }
}

/// The digits of a number spell the number.
proof fn lemma_hex_digits(n: int, count: nat)
    requires
        0 <= n < power_of_16(count),
    ensures
        hex_digits(n, count).len() == count,
        hex_value(hex_digits(n, count)) == n,
        forall|i: int|
            0 <= i < count ==> hex_digit_value(#[trigger] hex_digits(n, count)[i]) is Some,
    decreases count,
{
    if count > 0 {
        let less = (count - 1) as nat;
        let digits = hex_digits(n, count);
        lemma_hex_digits(n / 16, less);
        assert(digits.drop_last() =~= hex_digits(n / 16, less));
        assert(hex_digit_value(hex_char(n % 16)) == Some(n % 16));
        assert forall|i: int| 0 <= i < count implies hex_digit_value(
            #[trigger] digits[i],
        ) is Some by {
            if i < less {
                assert(digits[i] == hex_digits(n / 16, less)[i]);
            }
        }
    }
}

/// A session id can be read back from its text.
pub proof fn lemma_session_id_round_trip(id: ClientSessionId)
    ensures
        session_id_of(session_id_chars(id)) == Some(id),
{
    let digits = hex_digits(id as int, 32);
    assert(power_of_16(32) == 0x1_0000_0000_0000_0000_0000_0000_0000_0000int) by {
        reveal_with_fuel(power_of_16, 33);
    }
    lemma_hex_digits(id as int, 32);
    assert(ungrouped(hyphenated(digits)) =~= digits);
}

/// The text of a session id is 36 characters long, digits and hyphens all.
pub proof fn lemma_session_id_chars(id: ClientSessionId)
    ensures
        session_id_chars(id).len() == 36,
        forall|i: int|
            0 <= i < 36 ==> (#[trigger] session_id_chars(id)[i] == '-' || hex_digit_value(
                session_id_chars(id)[i],
            ) is Some),
{
    let digits = hex_digits(id as int, 32);
    assert(power_of_16(32) == 0x1_0000_0000_0000_0000_0000_0000_0000_0000int) by {
        reveal_with_fuel(power_of_16, 33);
    }
    lemma_hex_digits(id as int, 32);
    let s = session_id_chars(id);
    assert forall|i: int| 0 <= i < 36 implies (#[trigger] s[i] == '-' || hex_digit_value(
        s[i],
    ) is Some) by {
        if i < 8 {
            assert(s[i] == digits[i]);
        } else if 8 < i < 13 {
            assert(s[i] == digits[i - 1]);
        } else if 13 < i < 18 {
            assert(s[i] == digits[i - 2]);
        } else if 18 < i < 23 {
            assert(s[i] == digits[i - 3]);
        } else if i > 23 {
            assert(s[i] == digits[i - 4]);
        }
    }
}

/// A session id is also read without its hyphens, in braces and as a URN.
pub proof fn lemma_forms_of_an_id(id: ClientSessionId)
    ensures
        session_id_of(hex_digits(id as int, 32)) == Some(id),
        session_id_of(seq!['{'] + session_id_chars(id) + seq!['}']) == Some(id),
        session_id_of("urn:uuid:"@ + session_id_chars(id)) == Some(id),
{
    lemma_session_id_round_trip(id);
    lemma_session_id_chars(id);
    assert(power_of_16(32) == 0x1_0000_0000_0000_0000_0000_0000_0000_0000int) by {
        reveal_with_fuel(power_of_16, 33);
    }
    lemma_hex_digits(id as int, 32);
    let chars = session_id_chars(id);
    let braced = seq!['{'] + chars + seq!['}'];
    assert(braced.subrange(1, 37) =~= chars);
    reveal_strlit("urn:uuid:");
    let urn = "urn:uuid:"@ + chars;
    assert(urn.take(9) =~= "urn:uuid:"@);
    assert(urn.take(9).map_values(|c: char| ascii_lower(c)) =~= "urn:uuid:"@);
    assert(urn.skip(9) =~= chars);
}

} // verus!
