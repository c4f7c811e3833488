//! Player and sync-group identifiers: 128-bit UUIDs, made at random and
//! written in the usual hyphenated lower-case form.
use vstd::prelude::*;
use crate::text::hex_digit_char;

verus! {

/// A fresh random (version 4) UUID, as its 128-bit value
/// (`uuid::Uuid::new_v4`). Nothing is promised of the value.
#[verifier::external_body]
pub fn random_id() -> (r: u128) {
    uuid::Uuid::new_v4().as_u128()
}

/// What `uuid::Uuid::parse_str` makes of a string: the UUID's value, or
/// none where the text is not a UUID in one of the forms it accepts.
pub uninterp spec fn uuid_parse(s: Seq<char>) -> Option<u128>;

/// Parses a UUID in any form `uuid::Uuid::parse_str` accepts.
#[verifier::external_body]
pub fn parse_uuid(s: &str) -> (r: Option<u128>)
    ensures
        r == uuid_parse(s@),
{
    uuid::Uuid::parse_str(s).ok().map(|u| u.as_u128())
}

/// The `k`-th hexadecimal digit of `id`, most significant first.
pub open spec fn nibble(id: u128, k: int) -> u128 {
    (id >> ((124 - 4 * k) as u128)) & 15
}

/// The 32 hexadecimal digits of `id`, most significant first.
pub open spec fn hex_digits(id: u128) -> Seq<char> {
    Seq::new(32, |k: int| crate::text::hex_digit_lower(nibble(id, k) as nat))
}

/// The hyphenated lower-case form in which `uuid::Uuid` displays itself:
/// the 32 digits in groups of 8, 4, 4, 4 and 12.
pub open spec fn uuid_text(id: u128) -> Seq<char> {
    let d = hex_digits(id);
    d.subrange(0, 8) + seq!['-'] + d.subrange(8, 12) + seq!['-'] + d.subrange(12, 16) + seq!['-'] + d.subrange(16, 20)
        + seq!['-'] + d.subrange(20, 32)
}

/// Where a hyphen goes before digit `k`.
pub open spec fn hyphen_before(k: int) -> bool {
    k == 8 || k == 12 || k == 16 || k == 20
}

/// The first `k` digits of `id` with the hyphens that come before them.
pub open spec fn uuid_prefix(id: u128, k: int) -> Seq<char>
    decreases k,
{
    if k <= 0 {
        Seq::empty()
    } else {
        let p = uuid_prefix(id, k - 1);
        let p2 = if hyphen_before(k - 1) { p.push('-') } else { p };
        p2.push(hex_digits(id)[k - 1])
    }
}

proof fn lemma_uuid_prefix_full(id: u128)
    ensures
        uuid_prefix(id, 32) == uuid_text(id),
{
    let d = hex_digits(id);
    reveal_with_fuel(uuid_prefix, 33);
    assert(uuid_prefix(id, 32) =~= uuid_text(id));
}

/// The text of a UUID: hyphenated lower-case hexadecimal.
pub fn uuid_string(id: u128) -> (r: String)
    ensures
        r@ == uuid_text(id),
{
    let mut v: Vec<char> = Vec::new();
    let mut k: u32 = 0;
    while k < 32
        invariant
            k <= 32,
            v@ == uuid_prefix(id, k as int),
        decreases 32 - k,
    {
        if k == 8 || k == 12 || k == 16 || k == 20 {
            v.push('-');
        }
        let shift: u32 = 124 - 4 * k;
        let d = (id >> shift) & 15;
        assert(d < 16) by (bit_vector)
            requires
                d == (id >> shift) & 15,
        ;
        let c = hex_digit_char(d as u8);
        assert(hex_digits(id)[k as int] == c);
        v.push(c);
        k = k + 1;
    }
    proof {
        lemma_uuid_prefix_full(id);
    }
    crate::text::string_from_chars(v.as_slice())
}

} // verus!
