use vstd::prelude::*;
use vstd::string::{StrSliceExecFns, StringExecFns};

use crate::text::{
    append_decimal, colon_free, decimal, find_colon, first_colon_at, parse_u64, spec_parse_u64,
};

verus! {

/// Why a pagination cursor was refused.
#[derive(Clone, Copy, Debug, PartialEq, Eq, Structural)]
pub enum CursorError {
    /// The cursor has no colon.
    Malformed,
    /// The text before the first colon is not a score.
    InvalidScore,
    /// Nothing follows the first colon.
    EmptyMember,
}

/// The text of a cursor: the score, a colon and the member.
pub open spec fn spec_encode_cursor(score: u64, member: Seq<char>) -> Seq<char> {
    decimal(score as nat) + ":"@ + member
}

/// What a cursor with its first colon at `i` decodes to.
pub open spec fn spec_decode_at(text: Seq<char>, i: int) -> Result<(u64, Seq<char>), CursorError> {
    match spec_parse_u64(text.take(i)) {
        None => Err(CursorError::InvalidScore),
        Some(score) => if i + 1 == text.len() {
            Err(CursorError::EmptyMember)
        } else {
            Ok((score, text.skip(i + 1)))
        },
    }
}

/// Encodes the position of an index entry for the next page.
pub fn encode_cursor(score: u64, member: &str) -> (r: String)
    ensures
        r@ == spec_encode_cursor(score, member@),
{
    let mut r = String::new();
    append_decimal(&mut r, score);
    let r = r.concat(":").concat(member);
    proof {
        assert(r@ =~= spec_encode_cursor(score, member@));
    }
    r
}

/// Splits a cursor at its first colon into the score before it and the
/// member after it.
pub fn decode_cursor(cursor: &str) -> (r: Result<(u64, String), CursorError>)
    ensures
        colon_free(cursor@) <==> r == Err::<(u64, String), CursorError>(CursorError::Malformed),
        forall|i: int|
            first_colon_at(cursor@, i) ==> match spec_decode_at(cursor@, i) {
                Ok((score, member)) => r matches Ok((s, m)) && s == score && m@ == member,
                Err(e) => r == Err::<(u64, String), CursorError>(e),
            },
{
    let i = match find_colon(cursor) {
        None => {
            return Err(CursorError::Malformed);
        },
        Some(i) => i,
    };
    proof {
        assert forall|j: int| first_colon_at(cursor@, j) implies j == i by {
            crate::text::lemma_first_colon_unique(cursor@, i as int, j);
        }
    }
    let len = cursor.unicode_len();
    let score_text = cursor.substring_char(0, i);
    assert(score_text@ =~= cursor@.take(i as int));
    let score = match parse_u64(score_text) {
        None => {
            return Err(CursorError::InvalidScore);
        },
        Some(score) => score,
    };
    if i + 1 == len {
        return Err(CursorError::EmptyMember);
    }
    let member = cursor.substring_char(i + 1, len);
    assert(member@ =~= cursor@.skip(i + 1));
    Ok((score, String::from_str(member)))
}

/// Decoding an encoded cursor gives back its score and member, whenever the
/// member is not empty.
pub proof fn lemma_cursor_round_trip(score: u64, member: Seq<char>)
    requires
        member.len() > 0,
    ensures
        first_colon_at(spec_encode_cursor(score, member), decimal(score as nat).len() as int),
        spec_decode_at(spec_encode_cursor(score, member), decimal(score as nat).len() as int)
            == Ok::<(u64, Seq<char>), CursorError>((score, member)),
{
    let text = spec_encode_cursor(score, member);
    let n = decimal(score as nat).len() as int;
    crate::text::lemma_decimal_facts(score as nat);
    crate::text::lemma_parse_decimal(score);
    reveal_strlit(":");
    assert(text.take(n) =~= decimal(score as nat));
    assert(text[n] == ':');
    assert(text.skip(n + 1) =~= member);
}

} // verus!
