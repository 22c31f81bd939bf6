use vstd::prelude::*;

use crate::job::doubling;

verus! {

/// Lower-case hexadecimal digit of a value below 16.
pub open spec fn hex_digit(n: nat) -> char {
    if n < 10 {
        (48 + n) as char
    } else {
        (87 + n) as char
    }
}

/// The `k`-th of the 32 hexadecimal digits of a UUID, most significant first.
pub open spec fn nibble(x: u128, k: nat) -> nat {
    ((x as nat) / doubling(4 * (31 - k) as nat)) % 16
}

/// Positions 8, 13, 18 and 23 of the text form hold hyphens.
pub open spec fn is_hyphen_position(p: int) -> bool {
    p == 8 || p == 13 || p == 18 || p == 23
}

/// Which digit stands at a non-hyphen position of the text form.
pub open spec fn digit_index(p: int) -> nat {
    if p < 8 {
        p as nat
    } else if p < 13 {
        (p - 1) as nat
    } else if p < 18 {
        (p - 2) as nat
    } else if p < 23 {
        (p - 3) as nat
    } else {
        (p - 4) as nat
    }
}

/// The hyphenated lower-case text of a UUID, such as
/// `67e55044-10b1-426f-9247-bb680e5fe0c8`: 32 hexadecimal digits in groups
/// of 8, 4, 4, 4 and 12.
pub open spec fn uuid_text(x: u128) -> Seq<char> {
    Seq::new(
        36,
        |p: int|
            if is_hyphen_position(p) {
                '-'
            } else {
                hex_digit(nibble(x, digit_index(p)))
            },
    )
}

/// What `uuid::Uuid::parse_str` makes of a text: the UUID's 128 bits, or
/// nothing when the text is not a UUID.
pub uninterp spec fn uuid_parse(text: Seq<char>) -> Option<u128>;

/// Whether a UUID has the shape of a random one: version 4 in the version
/// nibble and the RFC 4122 variant in the two variant bits.
pub open spec fn is_v4(x: u128) -> bool {
    &&& ((x as nat) / doubling(76)) % 16 == 4
    &&& ((x as nat) / doubling(62)) % 4 == 2
}

/// A fresh random UUID (version 4), as its 128 bits. Calls
/// `uuid::Uuid::new_v4`; the contract states only the version and variant
/// bits that `new_v4` always sets, since the rest is random.
#[verifier::external_body]
pub(crate) fn new_uuid() -> (r: u128)
    ensures
        is_v4(r),
{
    uuid::Uuid::new_v4().as_u128()
}

/// The hyphenated text of a UUID. Calls `uuid::Uuid::from_u128` and its
/// `Display`, which writes the 32 lower-case hexadecimal digits of the
/// big-endian value in groups of 8-4-4-4-12.
#[verifier::external_body]
pub(crate) fn uuid_string(x: u128) -> (r: String)
    ensures
        r@ == uuid_text(x),
{
    uuid::Uuid::from_u128(x).to_string()
}

/// Parses a UUID. Calls `uuid::Uuid::parse_str`; the result is named by
/// `uuid_parse`, and the hyphenated text of any UUID parses back to it.
#[verifier::external_body]
pub(crate) fn parse_uuid(text: &str) -> (r: Option<u128>)
    ensures
        r == uuid_parse(text@),
        forall|x: u128| text@ == uuid_text(x) ==> r == Some(x),
{
    match uuid::Uuid::parse_str(text) {
        Ok(u) => Some(u.as_u128()),
        Err(_) => None,
    }
}

/// Reads a job id from its text.
pub fn parse_job_id(text: &str) -> (r: Option<crate::job::JobId>)
    ensures
        r == match uuid_parse(text@) {
            Some(x) => Some(crate::job::JobId(x)),
            None => None,
        },
        forall|x: u128| text@ == uuid_text(x) ==> r == Some(crate::job::JobId(x)),
{
    match parse_uuid(text) {
        Some(x) => Some(crate::job::JobId(x)),
        None => None,
    }
}

/// Reads a repeatable job id from its text.
pub fn parse_repeatable_id(text: &str) -> (r: Option<crate::repeat::RepeatableJobId>)
    ensures
        r == match uuid_parse(text@) {
            Some(x) => Some(crate::repeat::RepeatableJobId(x)),
            None => None,
        },
        forall|x: u128| text@ == uuid_text(x) ==> r == Some(crate::repeat::RepeatableJobId(x)),
{
    match parse_uuid(text) {
        Some(x) => Some(crate::repeat::RepeatableJobId(x)),
        None => None,
    }
}

/// No character of a UUID's text is a colon.
pub proof fn lemma_uuid_text_has_no_colon(x: u128)
    ensures
        uuid_text(x).len() == 36,
        forall|i: int| 0 <= i < 36 ==> #[trigger] uuid_text(x)[i] != ':',
{
    assert forall|i: int| 0 <= i < 36 implies #[trigger] uuid_text(x)[i] != ':' by {
        if !is_hyphen_position(i) {
            let n = nibble(x, digit_index(i));
            assert(n < 16);
        }
    }
}

} // verus!
