//! Identifiers: 16 random bytes, and their text.
use vstd::prelude::*;

use crate::text::{ascii_lower, digit};

verus! {

/// The text of bytes: two lower-case hexadecimal digits for each.
pub open spec fn hex_pairs(b: Seq<u8>) -> Seq<char> {
    Seq::new(
        2 * b.len(),
        |i: int|
            if i % 2 == 0 {
                digit((b[i / 2] / 16) as int)
            } else {
                digit((b[i / 2] % 16) as int)
            },
    )
}

/// The value of a hexadecimal digit.
pub open spec fn hex_value(c: char) -> Option<int> {
    if '0' <= c && c <= '9' {
        Some(c as u32 - '0' as u32)
    } else if 'a' <= c && c <= 'f' {
        Some(c as u32 - 'a' as u32 + 10)
    } else if 'A' <= c && c <= 'F' {
        Some(c as u32 - 'A' as u32 + 10)
    } else {
        None
    }
}

/// The 16 bytes that 32 hexadecimal digits stand for.
pub open spec fn from_digits(d: Seq<char>) -> Option<Seq<u8>> {
    if d.len() == 32 && forall|i: int| 0 <= i < 32 ==> hex_value(#[trigger] d[i]) is Some {
        Some(
            Seq::new(
                16,
                |i: int| (16 * hex_value(d[2 * i])->Some_0 + hex_value(d[2 * i + 1])->Some_0) as u8,
            ),
        )
    } else {
        None
    }
}

/// The bytes that 32 digits in five groups with hyphens between them stand for.
pub open spec fn from_groups(s: Seq<char>) -> Option<Seq<u8>> {
    if s.len() == 36 && s[8] == '-' && s[13] == '-' && s[18] == '-' && s[23] == '-' {
        from_digits(
            s.take(8) + s.subrange(9, 13) + s.subrange(14, 18) + s.subrange(19, 23) + s.skip(24),
        )
    } else {
        None
    }
}

/// The bytes that the text of an identifier stands for: 32 digits; or these in
/// groups, alone, in braces, or behind `urn:uuid:` in any letter case.
pub open spec fn uuid_bytes(s: Seq<char>) -> Option<Seq<u8>> {
    if s.len() == 32 {
        from_digits(s)
    } else if s.len() == 36 {
        from_groups(s)
    } else if s.len() == 38 && s[0] == '{' && s[37] == '}' {
        from_groups(s.subrange(1, 37))
    } else if s.len() == 45 && s.take(9).map_values(|c: char| ascii_lower(c)) == "urn:uuid:"@ {
        from_groups(s.skip(9))
    } else {
        None
    }
}

/// `uuid::Uuid::new_v4`: random bytes, but for the six bits that mark a random
/// identifier.
#[verifier::external_body]
fn random_bytes() -> (r: [u8; 16])
    ensures
        r@[6] / 16 == 4,
        r@[8] / 64 == 2,
{
    *uuid::Uuid::new_v4().as_bytes()
}

/// The `Display` text of `uuid::Uuid::simple`: the digits of the bytes in order,
/// in lower case, without hyphens.
#[verifier::external_body]
fn simple_text(id: &[u8; 16]) -> (r: String)
    ensures
        r@ == hex_pairs(id@),
{
    uuid::Uuid::from_bytes(*id).simple().to_string()
}

/// `uuid::Uuid::parse_str`: the bytes that a text stands for, in one of the four
/// forms that it reads.
#[verifier::external_body]
fn parse_text(s: &str) -> (r: Option<[u8; 16]>)
    ensures
        match r {
            Some(b) => uuid_bytes(s@) == Some(b@),
            None => uuid_bytes(s@) is None,
        },
{
    uuid::Uuid::parse_str(s).ok().map(|u| *u.as_bytes())
}

/// A fresh random identifier, marked as one.
pub fn new_uuid() -> (r: [u8; 16])
    ensures
        r@[6] / 16 == 4,
        r@[8] / 64 == 2,
{
    random_bytes()
}

/// The text of an identifier: 32 hexadecimal digits.
pub fn uuid_to_hex(id: &[u8; 16]) -> (r: String)
    ensures
        r@ == hex_pairs(id@),
{
    simple_text(id)
}

/// The identifier that a text stands for, if it stands for one.
pub fn uuid_from_hex(s: &str) -> (r: Option<[u8; 16]>)
    ensures
        match r {
            Some(b) => uuid_bytes(s@) == Some(b@),
            None => uuid_bytes(s@) is None,
        },
{
    parse_text(s)
}

/// Reading the text of an identifier gives the identifier back.
pub proof fn uuid_round_trip(id: Seq<u8>)
    requires
        id.len() == 16,
    ensures
        uuid_bytes(hex_pairs(id)) == Some(id),
{
    let d = hex_pairs(id);
    assert forall|i: int| 0 <= i < 32 implies hex_value(#[trigger] d[i]) == Some(
        if i % 2 == 0 {
            (id[i / 2] / 16) as int
        } else {
            (id[i / 2] % 16) as int
        },
    ) by {
        lemma_digit_value((id[i / 2] / 16) as int);
        lemma_digit_value((id[i / 2] % 16) as int);
    }
    let back = from_digits(d)->Some_0;
    assert forall|i: int| 0 <= i < 16 implies #[trigger] back[i] == id[i] by {
        assert(hex_value(d[2 * i]) == Some((id[i] / 16) as int));
        assert(hex_value(d[2 * i + 1]) == Some((id[i] % 16) as int));
    }
    assert(back =~= id);
}

proof fn lemma_digit_value(n: int)
    requires
        0 <= n < 16,
    ensures
        hex_value(digit(n)) == Some(n),
{
}

} // verus!
