use auth_core::claims::{decode_claims, encode_claims, Claims};

#[test]
fn encode_writes_the_two_members_in_order() {
    let text = encode_claims(Claims { account_id: 7, expiry: 1_700_000_000 });
    assert_eq!(text, "{\"account_id\":7,\"exp\":1700000000}");
}

#[test]
fn encode_writes_zero_and_negative_numbers() {
    assert_eq!(encode_claims(Claims { account_id: 0, expiry: 0 }), "{\"account_id\":0,\"exp\":0}");
    assert_eq!(
        encode_claims(Claims { account_id: -12, expiry: -1 }),
        "{\"account_id\":-12,\"exp\":-1}"
    );
    assert_eq!(
        encode_claims(Claims { account_id: 10, expiry: 100 }),
        "{\"account_id\":10,\"exp\":100}"
    );
}

#[test]
fn encode_writes_the_extremes() {
    assert_eq!(
        encode_claims(Claims { account_id: i32::MAX, expiry: i64::MAX }),
        "{\"account_id\":2147483647,\"exp\":9223372036854775807}"
    );
    assert_eq!(
        encode_claims(Claims { account_id: i32::MIN, expiry: i64::MIN }),
        "{\"account_id\":-2147483648,\"exp\":-9223372036854775808}"
    );
}

#[test]
fn decode_reads_what_encode_writes() {
    let samples = [
        Claims { account_id: 7, expiry: 1_700_000_000 },
        Claims { account_id: 0, expiry: 0 },
        Claims { account_id: -1, expiry: -1 },
        Claims { account_id: 9, expiry: 10 },
        Claims { account_id: 1_000_000, expiry: 99 },
        Claims { account_id: i32::MAX, expiry: i64::MAX },
        Claims { account_id: i32::MIN, expiry: i64::MIN },
        Claims { account_id: i32::MIN + 1, expiry: i64::MAX - 1 },
    ];
    for claims in samples {
        assert_eq!(decode_claims(&encode_claims(claims)), Some(claims));
    }
}

#[test]
fn decode_reads_a_given_text() {
    assert_eq!(
        decode_claims("{\"account_id\":3,\"exp\":86400}"),
        Some(Claims { account_id: 3, expiry: 86_400 })
    );
    assert_eq!(
        decode_claims("{\"account_id\":-40,\"exp\":-9223372036854775808}"),
        Some(Claims { account_id: -40, expiry: i64::MIN })
    );
}

#[test]
fn decode_rejects_numbers_out_of_range() {
    assert_eq!(decode_claims("{\"account_id\":2147483648,\"exp\":1}"), None);
    assert_eq!(decode_claims("{\"account_id\":-2147483649,\"exp\":1}"), None);
    assert_eq!(decode_claims("{\"account_id\":1,\"exp\":9223372036854775808}"), None);
    assert_eq!(decode_claims("{\"account_id\":1,\"exp\":-9223372036854775809}"), None);
    assert_eq!(decode_claims("{\"account_id\":1,\"exp\":18446744073709551616}"), None);
    assert_eq!(
        decode_claims("{\"account_id\":1,\"exp\":99999999999999999999999999999999999999}"),
        None
    );
}

#[test]
fn decode_rejects_other_spellings_of_a_number() {
    assert_eq!(decode_claims("{\"account_id\":07,\"exp\":1}"), None);
    assert_eq!(decode_claims("{\"account_id\":7,\"exp\":01}"), None);
    assert_eq!(decode_claims("{\"account_id\":00,\"exp\":1}"), None);
    assert_eq!(decode_claims("{\"account_id\":-0,\"exp\":1}"), None);
    assert_eq!(decode_claims("{\"account_id\":+7,\"exp\":1}"), None);
    assert_eq!(decode_claims("{\"account_id\":7.0,\"exp\":1}"), None);
    assert_eq!(decode_claims("{\"account_id\":7e0,\"exp\":1}"), None);
    assert_eq!(decode_claims("{\"account_id\":\"7\",\"exp\":1}"), None);
    assert_eq!(decode_claims("{\"account_id\":-,\"exp\":1}"), None);
    assert_eq!(decode_claims("{\"account_id\":--7,\"exp\":1}"), None);
    assert_eq!(decode_claims("{\"account_id\":,\"exp\":1}"), None);
    assert_eq!(decode_claims("{\"account_id\":7,\"exp\":}"), None);
    assert_eq!(decode_claims("{\"account_id\":7,\"exp\":-}"), None);
}

#[test]
fn decode_rejects_other_layouts() {
    assert_eq!(decode_claims(""), None);
    assert_eq!(decode_claims("{}"), None);
    assert_eq!(decode_claims("{\"account_id\":7}"), None);
    assert_eq!(decode_claims("{\"exp\":1,\"account_id\":7}"), None);
    assert_eq!(decode_claims("{\"account_id\": 7,\"exp\":1}"), None);
    assert_eq!(decode_claims("{\"account_id\":7, \"exp\":1}"), None);
    assert_eq!(decode_claims(" {\"account_id\":7,\"exp\":1}"), None);
    assert_eq!(decode_claims("{\"account_id\":7,\"exp\":1} "), None);
    assert_eq!(decode_claims("{\"account_id\":7,\"exp\":1}}"), None);
    assert_eq!(decode_claims("{\"account_id\":7,\"exp\":1"), None);
    assert_eq!(decode_claims("{\"account_id\":7,\"exp\":1,\"nbf\":0}"), None);
    assert_eq!(decode_claims("{\"account_id\":7,\"ex\":1}"), None);
    assert_eq!(decode_claims("{\"account_id\":7"), None);
    assert_eq!(decode_claims("{\"account_id\":"), None);
    assert_eq!(decode_claims("{\"account_id\""), None);
    assert_eq!(decode_claims("Love is stronger than hate or fear"), None);
}

#[test]
fn decode_rejects_text_outside_ascii() {
    assert_eq!(decode_claims("{\"account_id\":\u{0667},\"exp\":1}"), None);
    assert_eq!(decode_claims("{\"account_id\":7,\"exp\":1}\u{00e9}"), None);
    assert_eq!(decode_claims("\u{feff}{\"account_id\":7,\"exp\":1}"), None);
}

#[test]
fn different_claims_have_different_texts() {
    let a = encode_claims(Claims { account_id: 1, expiry: 23 });
    let b = encode_claims(Claims { account_id: 12, expiry: 3 });
    assert_ne!(a, b);
    assert_ne!(
        encode_claims(Claims { account_id: 1, expiry: -1 }),
        encode_claims(Claims { account_id: -1, expiry: 1 })
    );
}
