use jobrail::cursor::{decode_cursor, encode_cursor, CursorError};
use jobrail::ids::parse_job_id;
use jobrail::job::JobId;
use jobrail::keys::{
    attempt_key, attempts_key, idempotency_key, job_key, lease_job_id, lease_member,
    occurrence_key, repeat_key,
};
use jobrail::repeat::RepeatableJobId;
use jobrail::text::{less_than, parse_u64, same_text};

const ID: u128 = 0x67e5504410b1426f9247bb680e5fe0c8;
const TEXT: &str = "67e55044-10b1-426f-9247-bb680e5fe0c8";

#[test]
fn uuid_text_is_hyphenated_lower_case() {
    assert_eq!(JobId(ID).text(), TEXT);
    assert_eq!(JobId(0).text(), "00000000-0000-0000-0000-000000000000");
    assert_eq!(RepeatableJobId(ID).text(), TEXT);
}

#[test]
fn uuid_text_parses_back() {
    assert_eq!(parse_job_id(TEXT), Some(JobId(ID)));
    assert_eq!(parse_job_id("not-a-uuid"), None);
}

#[test]
fn keys_follow_the_store_layout() {
    assert_eq!(job_key(JobId(ID)), format!("jobrail:job:{TEXT}"));
    assert_eq!(lease_member(JobId(ID), "token-1"), format!("{TEXT}:token-1"));
    assert_eq!(idempotency_key("payment:123"), "jobrail:idempotency:payment:123");
    assert_eq!(repeat_key(RepeatableJobId(ID)), format!("jobrail:repeat:{TEXT}"));
    assert_eq!(
        occurrence_key(RepeatableJobId(ID), 2_000_000),
        format!("jobrail:repeat:occurrence:{TEXT}:2000000")
    );
    assert_eq!(attempt_key(JobId(ID), 3), format!("jobrail:job:{TEXT}:attempt:3"));
    assert_eq!(attempts_key(JobId(ID)), format!("jobrail:job:{TEXT}:attempts"));
}

#[test]
fn lease_member_gives_its_job_back() {
    let member = lease_member(JobId(ID), "7c9e6679-7425-40de-944b-e07fc1f90ae7");
    assert_eq!(lease_job_id(&member), Some(JobId(ID)));
    assert_eq!(lease_job_id("no colon here"), None);
    assert_eq!(lease_job_id("garbage:token"), None);
}

#[test]
fn cursor_round_trip() {
    let cursor = encode_cursor(1_700_000_000_123, TEXT);
    assert_eq!(cursor, format!("1700000000123:{TEXT}"));
    assert_eq!(decode_cursor(&cursor), Ok((1_700_000_000_123, TEXT.to_string())));
}

#[test]
fn cursor_errors() {
    assert_eq!(decode_cursor("no-colon"), Err(CursorError::Malformed));
    assert_eq!(decode_cursor("abc:member"), Err(CursorError::InvalidScore));
    assert_eq!(decode_cursor(":member"), Err(CursorError::InvalidScore));
    assert_eq!(decode_cursor("12:"), Err(CursorError::EmptyMember));
    assert_eq!(decode_cursor("12:a:b"), Ok((12, "a:b".to_string())));
}

#[test]
fn decimal_parsing() {
    assert_eq!(parse_u64("0"), Some(0));
    assert_eq!(parse_u64("18446744073709551615"), Some(u64::MAX));
    assert_eq!(parse_u64("18446744073709551616"), None);
    assert_eq!(parse_u64(""), None);
    assert_eq!(parse_u64("1x"), None);
}

#[test]
fn text_order_and_equality() {
    assert!(less_than("a", "b"));
    assert!(less_than("ab", "abc"));
    assert!(!less_than("abc", "ab"));
    assert!(!less_than("same", "same"));
    assert!(same_text("default", "default"));
    assert!(!same_text("default", "defaults"));
}

#[test]
fn runs_and_attempts_have_keys_of_their_own() {
    let id = RepeatableJobId(ID);
    assert_ne!(occurrence_key(id, 1_000), occurrence_key(id, 2_000));
    assert_ne!(occurrence_key(id, 1), occurrence_key(id, 10));
    assert_eq!(occurrence_key(id, 1_000), occurrence_key(id, 1_000));
    assert_ne!(attempt_key(JobId(ID), 1), attempt_key(JobId(ID), 2));
}
