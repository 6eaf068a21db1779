use std::collections::HashMap;
use std::time::Duration;

use prost_types::Any;
use tonic_richer_error::message::decode;
use tonic_richer_error::message::encode;
use tonic_richer_error::wire::take_number;
use tonic_richer_error::wire::write_plain_number;
use tonic_richer_error::BadRequest;
use tonic_richer_error::DebugInfo;
use tonic_richer_error::DecodeFailure;
use tonic_richer_error::ErrorDetail;
use tonic_richer_error::ErrorInfo;
use tonic_richer_error::FieldViolation;
use tonic_richer_error::Help;
use tonic_richer_error::HelpLink;
use tonic_richer_error::Kind;
use tonic_richer_error::LocalizedMessage;
use tonic_richer_error::PreconditionFailure;
use tonic_richer_error::PreconditionViolation;
use tonic_richer_error::QuotaFailure;
use tonic_richer_error::QuotaViolation;
use tonic_richer_error::RequestInfo;
use tonic_richer_error::ResourceInfo;
use tonic_richer_error::RetryInfo;

fn blob(type_url: &str, value: Vec<u8>) -> Any {
    Any {
        type_url: type_url.to_string(),
        value,
    }
}

#[test]
fn type_identifiers_are_the_standard_ones() {
    assert_eq!(RetryInfo::TYPE_URL, "type.googleapis.com/google.rpc.RetryInfo");
    assert_eq!(DebugInfo::TYPE_URL, "type.googleapis.com/google.rpc.DebugInfo");
    assert_eq!(
        QuotaFailure::TYPE_URL,
        "type.googleapis.com/google.rpc.QuotaFailure"
    );
    assert_eq!(ErrorInfo::TYPE_URL, "type.googleapis.com/google.rpc.ErrorInfo");
    assert_eq!(
        PreconditionFailure::TYPE_URL,
        "type.googleapis.com/google.rpc.PreconditionFailure"
    );
    assert_eq!(
        BadRequest::TYPE_URL,
        "type.googleapis.com/google.rpc.BadRequest"
    );
    assert_eq!(
        RequestInfo::TYPE_URL,
        "type.googleapis.com/google.rpc.RequestInfo"
    );
    assert_eq!(
        ResourceInfo::TYPE_URL,
        "type.googleapis.com/google.rpc.ResourceInfo"
    );
    assert_eq!(Help::TYPE_URL, "type.googleapis.com/google.rpc.Help");
    assert_eq!(
        LocalizedMessage::TYPE_URL,
        "type.googleapis.com/google.rpc.LocalizedMessage"
    );
}

#[test]
fn empty_records_encode_to_no_bytes() {
    assert!(BadRequest::empty().to_any().value.is_empty());
    assert!(DebugInfo::empty().to_any().value.is_empty());
    assert!(ErrorInfo::empty().to_any().value.is_empty());
    assert!(Help::new(Vec::new()).to_any().value.is_empty());
    assert!(LocalizedMessage::empty().to_any().value.is_empty());
    assert!(PreconditionFailure::new(Vec::new()).to_any().value.is_empty());
    assert!(QuotaFailure::new(Vec::new()).to_any().value.is_empty());
    assert!(RequestInfo::new("", "").to_any().value.is_empty());
    assert!(ResourceInfo::empty().to_any().value.is_empty());
    assert!(RetryInfo::empty().to_any().value.is_empty());
}

#[test]
fn no_bytes_decode_to_empty_records() {
    assert!(BadRequest::from_any(blob("", vec![])).unwrap().is_empty());
    assert!(DebugInfo::from_any(blob("", vec![])).unwrap().is_empty());
    assert!(ErrorInfo::from_any(blob("", vec![])).unwrap().is_empty());
    assert!(Help::from_any(blob("", vec![])).unwrap().is_empty());
    assert!(LocalizedMessage::from_any(blob("", vec![])).unwrap().is_empty());
    assert!(PreconditionFailure::from_any(blob("", vec![])).unwrap().is_empty());
    assert!(QuotaFailure::from_any(blob("", vec![])).unwrap().is_empty());
    assert!(RequestInfo::from_any(blob("", vec![])).unwrap().is_empty());
    assert!(ResourceInfo::from_any(blob("", vec![])).unwrap().is_empty());
    assert!(RetryInfo::from_any(blob("", vec![])).unwrap().is_empty());
}

#[test]
fn fresh_records_are_empty_and_filled_ones_are_not() {
    let mut bad_request = BadRequest::empty();
    assert!(bad_request.is_empty());
    assert!(!bad_request.has_violations());
    bad_request.add_violation("f", "d");
    assert!(!bad_request.is_empty());
    assert!(bad_request.has_violations());

    let mut quota_failure = QuotaFailure::new(Vec::new());
    assert!(quota_failure.is_empty());
    quota_failure.add_violation("s", "d");
    assert!(!quota_failure.is_empty());

    let mut prec_failure = PreconditionFailure::new(Vec::new());
    assert!(prec_failure.is_empty());
    prec_failure.add_violation("t", "s", "d");
    assert!(!prec_failure.is_empty());

    let mut help = Help::new(Vec::new());
    assert!(help.is_empty());
    help.add_link("d", "u");
    assert!(!help.is_empty());

    let mut retry_info = RetryInfo::empty();
    assert!(retry_info.is_empty());
    assert!(!retry_info.has_retry_delay());
    retry_info.set_retry_delay(Duration::ZERO);
    assert!(!retry_info.is_empty());
    assert!(retry_info.has_retry_delay());

    assert!(DebugInfo::empty().is_empty());
    assert!(!DebugInfo::new(vec![String::new()], "").is_empty());
    assert!(!DebugInfo::new(Vec::new(), "x").is_empty());

    assert!(ErrorInfo::empty().is_empty());
    assert!(!ErrorInfo::new("r", "", HashMap::new()).is_empty());
    assert!(!ErrorInfo::new("", "d", HashMap::new()).is_empty());
    let mut metadata = HashMap::new();
    metadata.insert(String::new(), String::new());
    assert!(!ErrorInfo::new("", "", metadata).is_empty());

    assert!(RequestInfo::new("", "").is_empty());
    assert!(!RequestInfo::new("", "x").is_empty());
    assert!(ResourceInfo::empty().is_empty());
    assert!(!ResourceInfo::new("", "", "o", "").is_empty());
    assert!(LocalizedMessage::empty().is_empty());
    assert!(!LocalizedMessage::new("l", "").is_empty());
}

#[test]
fn constructors_of_one_item_hold_that_item() {
    let bad_request = BadRequest::with_violation("f", "d");
    assert_eq!(bad_request.field_violations.len(), 1);
    assert_eq!(bad_request.field_violations[0].field, "f");
    assert_eq!(bad_request.field_violations[0].description, "d");
    let bad_request = BadRequest::from_violation("g", "e");
    assert_eq!(bad_request.field_violations[0].field, "g");
    assert_eq!(bad_request.field_violations[0].description, "e");

    let quota_failure = QuotaFailure::with_violation("s", "d");
    assert_eq!(quota_failure.violations.len(), 1);
    assert_eq!(quota_failure.violations[0].subject, "s");
    assert_eq!(quota_failure.violations[0].description, "d");

    let prec_failure = PreconditionFailure::with_violation("t", "s", "d");
    assert_eq!(prec_failure.violations.len(), 1);
    assert_eq!(prec_failure.violations[0].violation_type, "t");
    assert_eq!(prec_failure.violations[0].subject, "s");
    assert_eq!(prec_failure.violations[0].description, "d");

    let help = Help::with_link("d", "u");
    assert_eq!(help.links.len(), 1);
    assert_eq!(help.links[0].description, "d");
    assert_eq!(help.links[0].url, "u");

    let violation = FieldViolation::new("a", "b");
    assert_eq!((violation.field.as_str(), violation.description.as_str()), ("a", "b"));
    let violation = QuotaViolation::new("a", "b");
    assert_eq!((violation.subject.as_str(), violation.description.as_str()), ("a", "b"));
    let violation = PreconditionViolation::new("a", "b", "c");
    assert_eq!(violation.violation_type, "a");
    assert_eq!(violation.subject, "b");
    assert_eq!(violation.description, "c");
    let link = HelpLink::new("a", "b");
    assert_eq!((link.description.as_str(), link.url.as_str()), ("a", "b"));
}

#[test]
fn bad_request_keeps_the_order_of_its_violations() {
    let mut bad_request = BadRequest::empty();
    bad_request
        .add_violation("field_a", "description_a")
        .add_violation("field_b", "description_b");
    let back = BadRequest::from_any(bad_request.to_any()).unwrap();
    assert_eq!(back.field_violations.len(), 2);
    assert_eq!(back.field_violations[0].field, "field_a");
    assert_eq!(back.field_violations[0].description, "description_a");
    assert_eq!(back.field_violations[1].field, "field_b");
    assert_eq!(back.field_violations[1].description, "description_b");
}

#[test]
fn records_with_empty_parts_come_back() {
    let bad_request = BadRequest::new(vec![
        FieldViolation::new("", ""),
        FieldViolation::new("", "only description"),
        FieldViolation::new("only field", ""),
    ]);
    let any = bad_request.to_any();
    assert_eq!(&any.value[..2], &[10, 0]);
    let back = BadRequest::from_any(any).unwrap();
    assert_eq!(format!("{:?}", back), format!("{:?}", bad_request));

    let debug_info = DebugInfo::new(vec![String::new(), "x".to_string(), String::new()], "");
    let any = debug_info.to_any();
    assert_eq!(any.value, vec![10, 0, 10, 1, 120, 10, 0]);
    let back = DebugInfo::from_any(any).unwrap();
    assert_eq!(format!("{:?}", back), format!("{:?}", debug_info));

    let resource_info = ResourceInfo::new("", "name", "", "description");
    let any = resource_info.to_any();
    assert_eq!(any.value[0], 18);
    let back = ResourceInfo::from_any(any).unwrap();
    assert_eq!(format!("{:?}", back), format!("{:?}", resource_info));
}

#[test]
fn texts_beyond_ascii_come_back() {
    let message = LocalizedMessage::new("ja-JP", "エラーが発生しました 🙈");
    let back = LocalizedMessage::from_any(message.to_any()).unwrap();
    assert_eq!(back.locale, "ja-JP");
    assert_eq!(back.message, "エラーが発生しました 🙈");
}

#[test]
fn long_texts_come_back() {
    let long = "x".repeat(70_000);
    let info = RequestInfo::new(&long, "y");
    let any = info.to_any();
    // key, then the length 70000 as a three-byte varint
    assert_eq!(&any.value[..4], &[10, 0xF0, 0xA2, 0x04]);
    let back = RequestInfo::from_any(any).unwrap();
    assert_eq!(back.request_id, long);
    assert_eq!(back.serving_data, "y");
}

#[test]
fn error_info_with_several_entries_comes_back() {
    let mut metadata = HashMap::new();
    metadata.insert("a".to_string(), "1".to_string());
    metadata.insert("b".to_string(), String::new());
    metadata.insert(String::new(), "3".to_string());
    metadata.insert("d".to_string(), "4".to_string());
    let error_info = ErrorInfo::new("REASON", "domain", metadata.clone());
    let any = error_info.to_any();
    assert_eq!(any.type_url, ErrorInfo::TYPE_URL);
    let back = ErrorInfo::from_any(any).unwrap();
    assert_eq!(back.reason, "REASON");
    assert_eq!(back.domain, "domain");
    assert_eq!(back.metadata, metadata);
}

#[test]
fn error_info_entry_is_a_nested_pair_of_texts() {
    let mut metadata = HashMap::new();
    metadata.insert("k".to_string(), "v".to_string());
    let any = ErrorInfo::new("", "", metadata).to_any();
    assert_eq!(any.value, vec![26, 6, 10, 1, 107, 18, 1, 118]);
}

#[test]
fn later_entry_of_one_key_stays() {
    let payload = vec![
        26, 6, 10, 1, 107, 18, 1, 118, // k -> v
        26, 6, 10, 1, 107, 18, 1, 119, // k -> w
    ];
    let back = ErrorInfo::from_any(blob("", payload)).unwrap();
    assert_eq!(back.metadata.len(), 1);
    assert_eq!(back.metadata["k"], "w");
}

#[test]
fn metadata_field_is_read_whatever_its_wire_type() {
    // field 3 with the wire type of a varint, followed by an entry
    let payload = vec![24, 6, 10, 1, 107, 18, 1, 118];
    let back = ErrorInfo::from_any(blob("", payload)).unwrap();
    assert_eq!(back.metadata["k"], "v");
}

#[test]
fn fields_are_read_in_any_order_and_the_last_one_stays() {
    let payload = vec![18, 1, 98, 10, 1, 97, 18, 1, 99];
    let back = RequestInfo::from_any(blob("", payload)).unwrap();
    assert_eq!(back.request_id, "a");
    assert_eq!(back.serving_data, "c");
}

#[test]
fn unknown_fields_are_passed_over() {
    // field 9 as a varint, field 1, field 10 as 32 bits, field 2
    let payload = vec![72, 5, 10, 1, 97, 85, 1, 2, 3, 4, 18, 1, 98];
    let back = RequestInfo::from_any(blob("", payload)).unwrap();
    assert_eq!(back.request_id, "a");
    assert_eq!(back.serving_data, "b");

    // an unknown field inside a nested violation
    let payload = vec![10, 5, 72, 5, 10, 1, 97];
    let back = BadRequest::from_any(blob("", payload)).unwrap();
    assert_eq!(back.field_violations.len(), 1);
    assert_eq!(back.field_violations[0].field, "a");
    assert_eq!(back.field_violations[0].description, "");
}

#[test]
fn the_type_identifier_of_a_blob_is_not_looked_at() {
    let any = blob(Help::TYPE_URL, RequestInfo::new("a", "b").to_any().value);
    let back = RequestInfo::from_any(any).unwrap();
    assert_eq!(back.request_id, "a");
    assert_eq!(back.serving_data, "b");
}

#[test]
fn malformed_payloads_fail() {
    // a text that ends early
    assert!(matches!(
        RequestInfo::from_any(blob("", vec![10, 5, 97])),
        Err(DecodeFailure)
    ));
    // a text field with the wire type of a varint
    assert!(matches!(
        RequestInfo::from_any(blob("", vec![8, 5])),
        Err(DecodeFailure)
    ));
    // a text that is not UTF-8
    assert!(matches!(
        LocalizedMessage::from_any(blob("", vec![10, 1, 0xFF])),
        Err(DecodeFailure)
    ));
    // a key of field 0
    assert!(matches!(
        ResourceInfo::from_any(blob("", vec![2, 0])),
        Err(DecodeFailure)
    ));
    // a nested violation that is malformed
    assert!(matches!(
        BadRequest::from_any(blob("", vec![10, 2, 10, 5])),
        Err(DecodeFailure)
    ));
    // a nested violation that is longer than the payload
    assert!(matches!(
        QuotaFailure::from_any(blob("", vec![10, 9, 10, 1, 97])),
        Err(DecodeFailure)
    ));
    assert!(matches!(
        PreconditionFailure::from_any(blob("", vec![10])),
        Err(DecodeFailure)
    ));
    assert!(matches!(
        Help::from_any(blob("", vec![10, 1, 10])),
        Err(DecodeFailure)
    ));
    assert!(matches!(
        DebugInfo::from_any(blob("", vec![10, 1, 0x80])),
        Err(DecodeFailure)
    ));
    // a metadata entry with a malformed key
    assert!(matches!(
        ErrorInfo::from_any(blob("", vec![26, 3, 10, 1, 0xC0])),
        Err(DecodeFailure)
    ));
    // a delay whose seconds have the wire type of a text
    assert!(matches!(
        RetryInfo::from_any(blob("", vec![10, 3, 10, 1, 5])),
        Err(DecodeFailure)
    ));
    // an unknown field that ends early
    assert!(matches!(
        RequestInfo::from_any(blob("", vec![77, 1, 2])),
        Err(DecodeFailure)
    ));
}

#[test]
fn retry_info_keeps_seconds_and_nanoseconds() {
    let retry_info = RetryInfo::new(Some(Duration::new(3, 500)));
    let any = retry_info.to_any();
    assert_eq!(any.value, vec![10, 5, 8, 3, 16, 0xF4, 0x03]);
    let back = RetryInfo::from_any(any).unwrap();
    assert_eq!(back.retry_delay, Some(Duration::new(3, 500)));

    let retry_info = RetryInfo::new(Some(Duration::ZERO));
    let any = retry_info.to_any();
    assert_eq!(any.value, vec![10, 0]);
    let back = RetryInfo::from_any(any).unwrap();
    assert_eq!(back.retry_delay, Some(Duration::ZERO));

    let retry_info = RetryInfo::new(None);
    assert_eq!(retry_info.retry_delay, None);
    let back = RetryInfo::from_any(retry_info.to_any()).unwrap();
    assert_eq!(back.retry_delay, None);
}

#[test]
fn new_retry_info_cuts_long_delays() {
    let longest = Duration::new(315_576_000_000, 999_999_999);
    assert_eq!(
        RetryInfo::new(Some(Duration::from_secs(u64::MAX))).retry_delay,
        Some(longest)
    );
    assert_eq!(
        RetryInfo::new(Some(Duration::from_secs(315_576_000_001))).retry_delay,
        Some(longest)
    );
    assert_eq!(RetryInfo::new(Some(longest)).retry_delay, Some(longest));
    let below = Duration::new(315_576_000_000, 999_999_998);
    assert_eq!(RetryInfo::new(Some(below)).retry_delay, Some(below));
    assert_eq!(
        RetryInfo::with_retry_delay(Duration::from_secs(u64::MAX)).retry_delay,
        Some(Duration::from_secs(u64::MAX))
    );
}

#[test]
fn long_delays_are_encoded_as_the_longest_one() {
    let longest = RetryInfo::with_retry_delay(Duration::new(315_576_000_000, 999_999_999))
        .to_any()
        .value;
    assert_eq!(
        longest,
        vec![10, 13, 8, 128, 188, 174, 206, 151, 9, 16, 255, 147, 235, 220, 3]
    );
    assert_eq!(
        RetryInfo::with_retry_delay(Duration::from_secs(u64::MAX))
            .to_any()
            .value,
        longest
    );
    assert_eq!(
        RetryInfo::with_retry_delay(Duration::new(u64::MAX, 999_999_999))
            .to_any()
            .value,
        longest
    );
    // above the longest delay, but within the signed 64-bit seconds of the wire form
    assert_eq!(
        RetryInfo::with_retry_delay(Duration::from_secs(315_576_000_001))
            .to_any()
            .value,
        longest
    );
    assert_eq!(
        RetryInfo::with_retry_delay(Duration::from_secs(i64::MAX as u64))
            .to_any()
            .value,
        longest
    );
}

#[test]
fn negative_delays_are_decoded_as_zero() {
    // seconds -1
    let payload = vec![10, 11, 8, 255, 255, 255, 255, 255, 255, 255, 255, 255, 1];
    let back = RetryInfo::from_any(blob("", payload)).unwrap();
    assert_eq!(back.retry_delay, Some(Duration::ZERO));

    // nanoseconds -1
    let payload = vec![10, 11, 16, 255, 255, 255, 255, 255, 255, 255, 255, 255, 1];
    let back = RetryInfo::from_any(blob("", payload)).unwrap();
    assert_eq!(back.retry_delay, Some(Duration::ZERO));

    // seconds -1 and nanoseconds 5
    let payload = vec![10, 13, 8, 255, 255, 255, 255, 255, 255, 255, 255, 255, 1, 16, 5];
    let back = RetryInfo::from_any(blob("", payload)).unwrap();
    assert_eq!(back.retry_delay, Some(Duration::ZERO));

    // the least count of seconds
    let payload = vec![10, 11, 8, 128, 128, 128, 128, 128, 128, 128, 128, 128, 1];
    let back = RetryInfo::from_any(blob("", payload)).unwrap();
    assert_eq!(back.retry_delay, Some(Duration::ZERO));
}

#[test]
fn parts_of_unlike_sign_are_summed() {
    // seconds 2 and nanoseconds -1
    let payload = vec![10, 13, 8, 2, 16, 255, 255, 255, 255, 255, 255, 255, 255, 255, 1];
    let back = RetryInfo::from_any(blob("", payload)).unwrap();
    assert_eq!(back.retry_delay, Some(Duration::new(1, 999_999_999)));

    // seconds -1 and nanoseconds 1_999_999_999: together not negative
    let payload = vec![
        10, 17, 8, 255, 255, 255, 255, 255, 255, 255, 255, 255, 1, 16, 255, 167, 214, 185, 7,
    ];
    let back = RetryInfo::from_any(blob("", payload)).unwrap();
    assert_eq!(back.retry_delay, Some(Duration::new(0, 999_999_999)));

    // nanoseconds of two seconds
    let payload = vec![10, 8, 8, 1, 16, 128, 168, 214, 185, 7];
    let back = RetryInfo::from_any(blob("", payload)).unwrap();
    assert_eq!(back.retry_delay, Some(Duration::new(3, 0)));

    // the greatest count of seconds and nanoseconds of a second: the form runs over
    let payload = vec![
        10, 16, 8, 255, 255, 255, 255, 255, 255, 255, 255, 127, 16, 128, 148, 235, 220, 3,
    ];
    let back = RetryInfo::from_any(blob("", payload)).unwrap();
    assert_eq!(
        back.retry_delay,
        Some(Duration::new(i64::MAX as u64, 999_999_999))
    );
}

#[test]
fn a_delay_that_comes_twice_is_merged() {
    // first seconds 7, then nanoseconds 9 in a second delay field
    let payload = vec![10, 2, 8, 7, 10, 2, 16, 9];
    let back = RetryInfo::from_any(blob("", payload)).unwrap();
    assert_eq!(back.retry_delay, Some(Duration::new(7, 9)));
}

#[test]
fn delay_bytes_are_those_of_the_outside_message() {
    let ours = RetryInfo::with_retry_delay(Duration::new(77, 123_456_789))
        .to_any()
        .value;
    let theirs = prost::Message::encode_to_vec(&prost_types::Duration {
        seconds: 77,
        nanos: 123_456_789,
    });
    assert_eq!(&ours[..2], &[10, theirs.len() as u8]);
    assert_eq!(&ours[2..], &theirs[..]);

    let negative = prost_types::Duration {
        seconds: -5,
        nanos: -6,
    };
    assert_eq!(encode(&negative), prost::Message::encode_to_vec(&negative));
    let back: prost_types::Duration = decode(&encode(&negative)).unwrap();
    assert_eq!(back, negative);
}

#[test]
fn blob_bytes_are_those_of_the_outside_message() {
    for any in [
        blob("", vec![]),
        blob("type", vec![]),
        blob("", vec![0, 255]),
        blob("type.googleapis.com/google.rpc.Help", vec![10, 2, 10, 0]),
    ] {
        let ours = encode(&any);
        assert_eq!(ours, prost::Message::encode_to_vec(&any));
        let back: Any = decode(&ours).unwrap();
        assert_eq!(back, any);
        let theirs: Any = prost::Message::decode(&ours[..]).unwrap();
        assert_eq!(theirs, any);
    }
}

#[test]
fn details_know_their_kind() {
    let details: Vec<ErrorDetail> = vec![
        RetryInfo::new(None).into(),
        DebugInfo::empty().into(),
        QuotaFailure::new(Vec::new()).into(),
        ErrorInfo::empty().into(),
        PreconditionFailure::new(Vec::new()).into(),
        BadRequest::empty().into(),
        RequestInfo::new("", "").into(),
        ResourceInfo::empty().into(),
        Help::new(Vec::new()).into(),
        LocalizedMessage::empty().into(),
    ];
    let kinds = [
        Kind::RetryInfo,
        Kind::DebugInfo,
        Kind::QuotaFailure,
        Kind::ErrorInfo,
        Kind::PreconditionFailure,
        Kind::BadRequest,
        Kind::RequestInfo,
        Kind::ResourceInfo,
        Kind::Help,
        Kind::LocalizedMessage,
    ];
    let urls = [
        RetryInfo::TYPE_URL,
        DebugInfo::TYPE_URL,
        QuotaFailure::TYPE_URL,
        ErrorInfo::TYPE_URL,
        PreconditionFailure::TYPE_URL,
        BadRequest::TYPE_URL,
        RequestInfo::TYPE_URL,
        ResourceInfo::TYPE_URL,
        Help::TYPE_URL,
        LocalizedMessage::TYPE_URL,
    ];
    for i in 0..10 {
        assert_eq!(details[i].kind(), kinds[i]);
        assert_eq!(details[i].to_any().type_url, urls[i]);
        assert_eq!(tonic_richer_error::error_details_vec::kind_of(urls[i]), Some(kinds[i]));
        let back = ErrorDetail::from_bytes(kinds[i], &details[i].to_any().value).unwrap();
        assert_eq!(back.kind(), kinds[i]);
        assert_eq!(format!("{:?}", back), format!("{:?}", details[i]));
    }
    assert_eq!(tonic_richer_error::error_details_vec::kind_of(""), None);
    assert_eq!(
        tonic_richer_error::error_details_vec::kind_of("type.googleapis.com/google.rpc.Status"),
        None
    );
    assert_eq!(
        tonic_richer_error::error_details_vec::kind_of("type.googleapis.com/google.rpc.RetryInf"),
        None
    );
}

fn delay_payload(seconds: i64, nanos: i32) -> Vec<u8> {
    let wire = prost_types::Duration { seconds, nanos };
    let inner = prost::Message::encode_to_vec(&wire);
    let mut payload = vec![10, inner.len() as u8];
    payload.extend_from_slice(&inner);
    payload
}

#[test]
fn decoded_delay_is_the_sum_of_the_parts_within_bounds() {
    let seconds = [
        i64::MIN,
        i64::MIN + 1,
        i64::MIN + 2,
        i64::MIN + 3,
        i64::MIN + 4,
        -3,
        -2,
        -1,
        0,
        1,
        2,
        3,
        315_576_000_000,
        315_576_000_001,
        i64::MAX - 3,
        i64::MAX - 2,
        i64::MAX - 1,
        i64::MAX,
    ];
    let nanos = [
        i32::MIN,
        -2_000_000_001,
        -2_000_000_000,
        -1_999_999_999,
        -1_000_000_001,
        -1_000_000_000,
        -999_999_999,
        -2,
        -1,
        0,
        1,
        2,
        999_999_999,
        1_000_000_000,
        1_000_000_001,
        1_999_999_999,
        2_000_000_000,
        2_000_000_001,
        i32::MAX,
    ];
    let longest: i128 = (i64::MAX as i128) * 1_000_000_000 + 999_999_999;
    for s in seconds {
        for n in nanos {
            let total: i128 = (s as i128) * 1_000_000_000 + (n as i128);
            let expected: u128 = if total < 0 {
                0
            } else if total > longest {
                longest as u128
            } else {
                total as u128
            };
            let back = RetryInfo::from_any(blob("", delay_payload(s, n))).unwrap();
            assert_eq!(
                back.retry_delay.map(|delay| delay.as_nanos()),
                Some(expected)
            );
        }
    }
}

#[test]
fn encoded_delay_is_the_delay_cut_down() {
    let delays = [
        Duration::ZERO,
        Duration::new(0, 1),
        Duration::new(0, 999_999_999),
        Duration::new(1, 0),
        Duration::new(315_575_999_999, 999_999_999),
        Duration::new(315_576_000_000, 0),
        Duration::new(315_576_000_000, 999_999_998),
        Duration::new(315_576_000_000, 999_999_999),
        Duration::new(315_576_000_001, 0),
        Duration::new(i64::MAX as u64, 5),
        Duration::new(i64::MAX as u64 + 1, 5),
        Duration::new(u64::MAX, 999_999_999),
    ];
    let longest = Duration::new(315_576_000_000, 999_999_999);
    for delay in delays {
        let cut = if delay > longest { longest } else { delay };
        let any = RetryInfo::with_retry_delay(delay).to_any();
        assert_eq!(
            any.value,
            delay_payload(cut.as_secs() as i64, cut.subsec_nanos() as i32)
        );
        assert_eq!(RetryInfo::new(Some(delay)).retry_delay, Some(cut));
        assert_eq!(RetryInfo::from_any(any).unwrap().retry_delay, Some(cut));
    }
}

#[test]
fn numbers_of_every_length_come_back() {
    let mut value: u64 = 1;
    for _ in 0..64 {
        for v in [value - 1, value, value + 1, value.wrapping_mul(3) | 1] {
            if v == 0 {
                continue;
            }
            let mut ours = Vec::new();
            write_plain_number(1, v, &mut ours);
            let mut theirs = vec![8];
            prost::encoding::encode_varint(v, &mut theirs);
            assert_eq!(ours, theirs);
            ours.push(0x55);
            let (back, rest) = take_number(prost::encoding::WireType::Varint, &ours[1..]).unwrap();
            assert_eq!(back, v);
            assert_eq!(rest, &[0x55]);
        }
        value = value.wrapping_mul(2);
    }
}
