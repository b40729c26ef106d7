use pkcs7_decoder::error::{DecodeError, ErrorKind, Field};
use pkcs7_decoder::validity::Validity;

fn invalid_time() -> DecodeError {
    DecodeError { kind: ErrorKind::InvalidTime, field: Field::Validity, offset: 0 }
}

#[test]
fn utc_time_of_2025_is_in_this_century() {
    assert_eq!(Validity::parse_asn1_to_timestamp("250101000000Z"), Ok(1735689600));
}

#[test]
fn utc_time_of_99_is_in_the_last_century() {
    assert_eq!(Validity::parse_asn1_to_timestamp("991231235959Z"), Ok(946684799));
}

#[test]
fn utc_time_pivot_lies_between_49_and_50() {
    assert_eq!(Validity::parse_asn1_to_timestamp("491231235959Z"), Ok(2524607999));
    assert_eq!(Validity::parse_asn1_to_timestamp("500101000000Z"), Ok(-631152000));
}

#[test]
fn utc_time_of_a_leap_day() {
    assert_eq!(Validity::parse_asn1_to_timestamp("000229120000Z"), Ok(951825600));
    assert_eq!(Validity::parse_asn1_to_timestamp("240229000000Z"), Ok(1709164800));
    assert_eq!(Validity::parse_asn1_to_timestamp("230229000000Z"), Err(invalid_time()));
}

#[test]
fn utc_time_leap_second_counts_as_the_last_second() {
    assert_eq!(
        Validity::parse_asn1_to_timestamp("161231235960Z"),
        Validity::parse_asn1_to_timestamp("161231235959Z")
    );
    assert_eq!(Validity::parse_asn1_to_timestamp("161231235961Z"), Err(invalid_time()));
}

#[test]
fn utc_time_of_another_form_fails() {
    for text in [
        "",
        "250101000000",
        "2501010000Z",
        "20250101000000Z",
        "250101000000z",
        "250101000000+0000",
        "25010100000aZ",
        " 50101000000Z",
        "250101000000Z ",
        "25\u{661}101000000Z",
    ] {
        assert_eq!(Validity::parse_asn1_to_timestamp(text), Err(invalid_time()), "{:?}", text);
    }
}

#[test]
fn utc_time_out_of_range_fails() {
    for text in [
        "251301000000Z",
        "250001000000Z",
        "250100000000Z",
        "250132000000Z",
        "250431000000Z",
        "250101240000Z",
        "250101006000Z",
    ] {
        assert_eq!(Validity::parse_asn1_to_timestamp(text), Err(invalid_time()), "{:?}", text);
    }
}

#[test]
fn validity_to_string_prints_both_instants() {
    let validity = Validity { not_before: 1735689600, not_after: -631152000 };
    assert_eq!(
        validity.to_string(),
        "Validity {\n    not_before: 1735689600,\n    not_after: -631152000\n  }"
    );
    let zero = Validity { not_before: 0, not_after: i64::MIN };
    assert_eq!(
        zero.to_string(),
        format!("Validity {{\n    not_before: 0,\n    not_after: {}\n  }}", i64::MIN)
    );
}
