//! UUID generation and text forms, through the `uuid` crate.
use vstd::prelude::*;
use uuid::Uuid;

verus! {

/// What `Uuid::parse_str` accepts, as the UUID's 128-bit value.
pub uninterp spec fn uuid_value(text: Seq<char>) -> Option<u128>;

/// The lower-case hex digit of a value below sixteen.
pub open spec fn hex_digit_lower(n: int) -> char {
    if n < 10 {
        ('0' as int + n) as char
    } else {
        ('a' as int + (n - 10)) as char
    }
}

/// The `k`-th of the 32 hex digits of `id`, the most significant first.
pub open spec fn uuid_nibble(id: u128, k: int) -> int {
    (id as int / vstd::arithmetic::power::pow(16, (31 - k) as nat)) % 16
}

/// The hyphenated lower-case form of the UUID with value `id`: its 32 hex
/// digits, the most significant first, in groups of 8, 4, 4, 4 and 12.
pub open spec fn uuid_text(id: u128) -> Seq<char> {
    Seq::new(
        36,
        |i: int|
            if i == 8 || i == 13 || i == 18 || i == 23 {
                '-'
            } else {
                hex_digit_lower(uuid_nibble(id, i - if i < 8 { 0int } else if i < 13 { 1int } else if i < 18 { 2int } else if i < 23 { 3int } else { 4int }))
            },
    )
}

/// A fresh random (version 4) UUID from `Uuid::new_v4`. Nothing is promised of
/// the value: it is drawn at random.
#[verifier::external_body]
pub(crate) fn new_id() -> (r: u128) {
    Uuid::new_v4().as_u128()
}

/// `Uuid::parse_str`, as the UUID's value.
#[verifier::external_body]
pub(crate) fn parse_uuid(text: &str) -> (r: Option<u128>)
    ensures
        r == uuid_value(text@),
{
    Uuid::parse_str(text).ok().map(|id| id.as_u128())
}

/// The hyphenated form: 36 characters, each an ASCII hex digit or a hyphen.
pub open spec fn hyphenated_uuid(s: Seq<char>) -> bool {
    &&& s.len() == 36
    &&& forall|i: int| 0 <= i < 36 ==> ('0' <= #[trigger] s[i] && s[i] <= '9') || ('a' <= s[i] && s[i] <= 'f') || s[i] == '-'
}

/// `Uuid::to_string` of the UUID with value `id`: the hyphenated lower-case
/// form of `Uuid::from_u128(id)`, whose bytes are the value's big-endian
/// bytes; `Uuid::parse_str` reads that form back as the same value.
#[verifier::external_body]
pub(crate) fn uuid_to_string(id: u128) -> (r: String)
    ensures
        r@ == uuid_text(id),
        uuid_value(r@) == Some(id),
{
    Uuid::from_u128(id).to_string()
}

/// The text of a UUID is 36 hex digits and hyphens.
pub proof fn lemma_uuid_text_hyphenated(id: u128)
    ensures
        hyphenated_uuid(uuid_text(id)),
{
    let t = uuid_text(id);
    assert forall|i: int| 0 <= i < 36 implies ('0' <= #[trigger] t[i] && t[i] <= '9') || ('a' <= t[i] && t[i] <= 'f') || t[i] == '-' by {
        if !(i == 8 || i == 13 || i == 18 || i == 23) {
            let k = i - if i < 8 { 0int } else if i < 13 { 1int } else if i < 18 { 2int } else if i < 23 { 3int } else { 4int };
            vstd::arithmetic::power::lemma_pow_positive(16, (31 - k) as nat);
            let n = uuid_nibble(id, k);
            assert(0 <= n < 16);
        }
    }
}

}
