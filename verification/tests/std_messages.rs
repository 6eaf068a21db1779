use std::collections::HashMap;
use std::time::Duration;

use tonic_richer_error::BadRequest;
use tonic_richer_error::DebugInfo;
use tonic_richer_error::ErrorInfo;
use tonic_richer_error::Help;
use tonic_richer_error::LocalizedMessage;
use tonic_richer_error::PreconditionFailure;
use tonic_richer_error::QuotaFailure;
use tonic_richer_error::RequestInfo;
use tonic_richer_error::ResourceInfo;
use tonic_richer_error::RetryInfo;

#[test]
fn gen_bad_request() {
    let mut br_details = BadRequest::empty();
    let formatted = format!("{:?}", br_details);

    println!("empty BadRequest -> {formatted}");

    let expected = "BadRequest { field_violations: [] }";

    assert!(
        formatted.eq(expected),
        "empty BadRequest differs from expected result"
    );

    assert!(
        br_details.has_violations() == false,
        "empty BadRequest returns 'true' from .has_violations()"
    );

    br_details
        .add_violation("field_a", "description_a")
        .add_violation("field_b", "description_b");

    let formatted = format!("{:?}", br_details);

    println!("filled BadRequest -> {formatted}");

    let expected_filled = "BadRequest { field_violations: [FieldViolation { field: \"field_a\", description: \"description_a\" }, FieldViolation { field: \"field_b\", description: \"description_b\" }] }";

    assert!(
        formatted.eq(expected_filled),
        "filled BadRequest differs from expected result"
    );

    assert!(
        br_details.has_violations() == true,
        "filled BadRequest returns 'false' from .has_violations()"
    );

    let gen_any = br_details.to_any();
    let formatted = format!("{:?}", gen_any);

    println!("Any generated from BadRequest -> {formatted}");

    let expected = "Any { type_url: \"type.googleapis.com/google.rpc.BadRequest\", value: [10, 24, 10, 7, 102, 105, 101, 108, 100, 95, 97, 18, 13, 100, 101, 115, 99, 114, 105, 112, 116, 105, 111, 110, 95, 97, 10, 24, 10, 7, 102, 105, 101, 108, 100, 95, 98, 18, 13, 100, 101, 115, 99, 114, 105, 112, 116, 105, 111, 110, 95, 98] }";

    assert!(
        formatted.eq(expected),
        "Any from filled BadRequest differs from expected result"
    );

    let br_details = match BadRequest::from_any(gen_any) {
        Err(error) => panic!("Error generating Any from BadRequest: {:?}", error),
        Ok(from_any) => from_any,
    };

    let formatted = format!("{:?}", br_details);

    println!("BadRequest generated from Any -> {formatted}");

    assert!(
        formatted.eq(expected_filled),
        "BadRequest from Any differs from expected result"
    );
}

#[test]
fn gen_debug_info() {
    let debug_info = DebugInfo::empty();
    let formatted = format!("{:?}", debug_info);

    println!("empty DebugInfo -> {formatted}");

    let expected = "DebugInfo { stack_entries: [], detail: \"\" }";

    assert!(
        formatted.eq(expected),
        "empty DebugInfo differs from expected result"
    );

    let debug_info = DebugInfo::with_stack(
        vec!["trace 3", "trace 2", "trace 1"],
        "details about the error",
    );

    let formatted = format!("{:?}", debug_info);

    println!("filled DebugInfo -> {formatted}");

    let expected_filled = "DebugInfo { stack_entries: [\"trace 3\", \"trace 2\", \"trace 1\"], detail: \"details about the error\" }";

    assert!(
        formatted.eq(expected_filled),
        "filled DebugInfo differs from expected result"
    );

    let gen_any = match debug_info.into_any() {
        Err(error) => panic!("Error generating Any from DebugInfo: {:?}", error),
        Ok(gen_any) => gen_any,
    };
    let formatted = format!("{:?}", gen_any);

    println!("Any generated from DebugInfo -> {formatted}");

    let expected =
        "Any { type_url: \"type.googleapis.com/google.rpc.DebugInfo\", value: [10, 7, 116, 114, 97, 99, 101, 32, 51, 10, 7, 116, 114, 97, 99, 101, 32, 50, 10, 7, 116, 114, 97, 99, 101, 32, 49, 18, 23, 100, 101, 116, 97, 105, 108, 115, 32, 97, 98, 111, 117, 116, 32, 116, 104, 101, 32, 101, 114, 114, 111, 114] }";

    assert!(
        formatted.eq(expected),
        "Any from filled DebugInfo differs from expected result"
    );

    let br_details = match DebugInfo::from_any(gen_any) {
        Err(error) => panic!("Error generating DebugInfo from Any: {:?}", error),
        Ok(from_any) => from_any,
    };

    let formatted = format!("{:?}", br_details);

    println!("DebugInfo generated from Any -> {formatted}");

    assert!(
        formatted.eq(expected_filled),
        "DebugInfo from Any differs from expected result"
    );
}

#[test]
fn debug_info_gen_debug_info() {
    let debug_info = DebugInfo::new(
        vec![
            "trace 3".to_string(),
            "trace 2".to_string(),
            "trace 1".to_string(),
        ],
        "details about the error",
    );

    let formatted = format!("{:?}", debug_info);

    println!("filled DebugInfo -> {formatted}");

    let expected_filled = "DebugInfo { stack_entries: [\"trace 3\", \"trace 2\", \"trace 1\"], detail: \"details about the error\" }";

    assert!(
        formatted.eq(expected_filled),
        "filled DebugInfo differs from expected result"
    );

    let gen_any = match debug_info.into_any() {
        Err(error) => panic!("Error generating Any from DebugInfo: {:?}", error),
        Ok(gen_any) => gen_any,
    };
    let formatted = format!("{:?}", gen_any);

    println!("Any generated from DebugInfo -> {formatted}");

    let expected =
        "Any { type_url: \"type.googleapis.com/google.rpc.DebugInfo\", value: [10, 7, 116, 114, 97, 99, 101, 32, 51, 10, 7, 116, 114, 97, 99, 101, 32, 50, 10, 7, 116, 114, 97, 99, 101, 32, 49, 18, 23, 100, 101, 116, 97, 105, 108, 115, 32, 97, 98, 111, 117, 116, 32, 116, 104, 101, 32, 101, 114, 114, 111, 114] }";

    assert!(
        formatted.eq(expected),
        "Any from filled DebugInfo differs from expected result"
    );

    let br_details = match DebugInfo::from_any(gen_any) {
        Err(error) => panic!("Error generating DebugInfo from Any: {:?}", error),
        Ok(from_any) => from_any,
    };

    let formatted = format!("{:?}", br_details);

    println!("DebugInfo generated from Any -> {formatted}");

    assert!(
        formatted.eq(expected_filled),
        "DebugInfo from Any differs from expected result"
    );
}

#[test]
fn help_gen_quota_failure() {
    let mut help = Help::new(Vec::new());
    let formatted = format!("{:?}", help);

    println!("empty Help -> {formatted}");

    let expected = "Help { links: [] }";

    assert!(
        formatted.eq(expected),
        "empty Help differs from expected result"
    );

    assert!(
        help.is_empty(),
        "empty Help returns 'false' from .is_empty()"
    );

    help.add_link("link to resource a", "resource-a.example.local")
        .add_link("link to resource b", "resource-b.example.local");

    let formatted = format!("{:?}", help);

    println!("filled Help -> {formatted}");

    let expected_filled = "Help { links: [HelpLink { description: \"link to resource a\", url: \"resource-a.example.local\" }, HelpLink { description: \"link to resource b\", url: \"resource-b.example.local\" }] }";

    assert!(
        formatted.eq(expected_filled),
        "filled Help differs from expected result"
    );

    assert!(
        help.is_empty() == false,
        "filled Help returns 'true' from .is_empty()"
    );

    let gen_any = match help.into_any() {
        Err(error) => panic!("Error generating Any from Help: {:?}", error),
        Ok(gen_any) => gen_any,
    };
    let formatted = format!("{:?}", gen_any);

    println!("Any generated from Help -> {formatted}");

    let expected = "Any { type_url: \"type.googleapis.com/google.rpc.Help\", value: [10, 46, 10, 18, 108, 105, 110, 107, 32, 116, 111, 32, 114, 101, 115, 111, 117, 114, 99, 101, 32, 97, 18, 24, 114, 101, 115, 111, 117, 114, 99, 101, 45, 97, 46, 101, 120, 97, 109, 112, 108, 101, 46, 108, 111, 99, 97, 108, 10, 46, 10, 18, 108, 105, 110, 107, 32, 116, 111, 32, 114, 101, 115, 111, 117, 114, 99, 101, 32, 98, 18, 24, 114, 101, 115, 111, 117, 114, 99, 101, 45, 98, 46, 101, 120, 97, 109, 112, 108, 101, 46, 108, 111, 99, 97, 108] }";

    assert!(
        formatted.eq(expected),
        "Any from filled Help differs from expected result"
    );

    let br_details = match Help::from_any(gen_any) {
        Err(error) => panic!("Error generating Help from Any: {:?}", error),
        Ok(from_any) => from_any,
    };

    let formatted = format!("{:?}", br_details);

    println!("Help generated from Any -> {formatted}");

    assert!(
        formatted.eq(expected_filled),
        "Help from Any differs from expected result"
    );
}

#[test]
fn loc_message_gen_error_info() {
    let error_info = LocalizedMessage::empty();
    let formatted = format!("{:?}", error_info);

    println!("empty LocalizedMessage -> {formatted}");

    let expected = "LocalizedMessage { locale: \"\", message: \"\" }";

    assert!(
        formatted.eq(expected),
        "empty LocalizedMessage differs from expected result"
    );

    let error_info = LocalizedMessage::with_data("en-US", "message for the user");

    let formatted = format!("{:?}", error_info);

    println!("filled LocalizedMessage -> {formatted}");

    let expected_filled =
        "LocalizedMessage { locale: \"en-US\", message: \"message for the user\" }";

    assert!(
        formatted.eq(expected_filled),
        "filled LocalizedMessage differs from expected result"
    );

    let gen_any = match error_info.into_any() {
        Err(error) => panic!("Error generating Any from LocalizedMessage: {:?}", error),
        Ok(gen_any) => gen_any,
    };
    let formatted = format!("{:?}", gen_any);

    println!("Any generated from LocalizedMessage -> {formatted}");

    let expected =
        "Any { type_url: \"type.googleapis.com/google.rpc.LocalizedMessage\", value: [10, 5, 101, 110, 45, 85, 83, 18, 20, 109, 101, 115, 115, 97, 103, 101, 32, 102, 111, 114, 32, 116, 104, 101, 32, 117, 115, 101, 114] }";

    assert!(
        formatted.eq(expected),
        "Any from filled LocalizedMessage differs from expected result"
    );

    let br_details = match LocalizedMessage::from_any(gen_any) {
        Err(error) => panic!("Error generating LocalizedMessage from Any: {:?}", error),
        Ok(from_any) => from_any,
    };

    let formatted = format!("{:?}", br_details);

    println!("LocalizedMessage generated from Any -> {formatted}");

    assert!(
        formatted.eq(expected_filled),
        "LocalizedMessage from Any differs from expected result"
    );
}

#[test]
fn gen_prec_failure() {
    let mut prec_failure = PreconditionFailure::new(Vec::new());
    let formatted = format!("{:?}", prec_failure);

    println!("empty PreconditionFailure -> {formatted}");

    let expected = "PreconditionFailure { violations: [] }";

    assert!(
        formatted.eq(expected),
        "empty PreconditionFailure differs from expected result"
    );

    assert!(
        prec_failure.is_empty(),
        "empty PreconditionFailure returns 'false' from .is_empty()"
    );

    prec_failure
        .add_violation("TOS", "example.local", "Terms of service not accepted")
        .add_violation("FNF", "example.local", "File not found");

    let formatted = format!("{:?}", prec_failure);

    println!("filled PreconditionFailure -> {formatted}");

    let expected_filled = "PreconditionFailure { violations: [PreconditionViolation { type: \"TOS\", subject: \"example.local\", description: \"Terms of service not accepted\" }, PreconditionViolation { type: \"FNF\", subject: \"example.local\", description: \"File not found\" }] }";

    assert!(
        formatted.eq(expected_filled),
        "filled PreconditionFailure differs from expected result"
    );

    assert!(
        prec_failure.is_empty() == false,
        "filled PreconditionFailure returns 'true' from .is_empty()"
    );

    let gen_any = match prec_failure.into_any() {
        Err(error) => panic!("Error generating Any from PreconditionFailure: {:?}", error),
        Ok(gen_any) => gen_any,
    };
    let formatted = format!("{:?}", gen_any);

    println!("Any generated from PreconditionFailure -> {formatted}");

    let expected = "Any { type_url: \"type.googleapis.com/google.rpc.PreconditionFailure\", value: [10, 51, 10, 3, 84, 79, 83, 18, 13, 101, 120, 97, 109, 112, 108, 101, 46, 108, 111, 99, 97, 108, 26, 29, 84, 101, 114, 109, 115, 32, 111, 102, 32, 115, 101, 114, 118, 105, 99, 101, 32, 110, 111, 116, 32, 97, 99, 99, 101, 112, 116, 101, 100, 10, 36, 10, 3, 70, 78, 70, 18, 13, 101, 120, 97, 109, 112, 108, 101, 46, 108, 111, 99, 97, 108, 26, 14, 70, 105, 108, 101, 32, 110, 111, 116, 32, 102, 111, 117, 110, 100] }";

    assert!(
        formatted.eq(expected),
        "Any from filled PreconditionFailure differs from expected result"
    );

    let br_details = match PreconditionFailure::from_any(gen_any) {
        Err(error) => panic!("Error generating PreconditionFailure from Any: {:?}", error),
        Ok(from_any) => from_any,
    };

    let formatted = format!("{:?}", br_details);

    println!("PreconditionFailure generated from Any -> {formatted}");

    assert!(
        formatted.eq(expected_filled),
        "PreconditionFailure from Any differs from expected result"
    );
}

#[test]
fn request_info_gen_error_info() {
    let error_info = RequestInfo::new("some-id", "some-data");

    let formatted = format!("{:?}", error_info);

    println!("filled RequestInfo -> {formatted}");

    let expected_filled =
        "RequestInfo { request_id: \"some-id\", serving_data: \"some-data\" }";

    assert!(
        formatted.eq(expected_filled),
        "filled RequestInfo differs from expected result"
    );

    let gen_any = match error_info.into_any() {
        Err(error) => panic!("Error generating Any from RequestInfo: {:?}", error),
        Ok(gen_any) => gen_any,
    };
    let formatted = format!("{:?}", gen_any);

    println!("Any generated from RequestInfo -> {formatted}");

    let expected =
        "Any { type_url: \"type.googleapis.com/google.rpc.RequestInfo\", value: [10, 7, 115, 111, 109, 101, 45, 105, 100, 18, 9, 115, 111, 109, 101, 45, 100, 97, 116, 97] }";

    assert!(
        formatted.eq(expected),
        "Any from filled RequestInfo differs from expected result"
    );

    let br_details = match RequestInfo::from_any(gen_any) {
        Err(error) => panic!("Error generating RequestInfo from Any: {:?}", error),
        Ok(from_any) => from_any,
    };

    let formatted = format!("{:?}", br_details);

    println!("RequestInfo generated from Any -> {formatted}");

    assert!(
        formatted.eq(expected_filled),
        "RequestInfo from Any differs from expected result"
    );
}

#[test]
fn resource_info_gen_error_info() {
    let error_info = ResourceInfo::empty();
    let formatted = format!("{:?}", error_info);

    println!("empty ResourceInfo -> {formatted}");

    let expected = "ResourceInfo { resource_type: \"\", resource_name: \"\", owner: \"\", description: \"\" }";

    assert!(
        formatted.eq(expected),
        "empty ResourceInfo differs from expected result"
    );

    let error_info =
        ResourceInfo::with_data("resource-type", "resource-name", "owner", "description");

    let formatted = format!("{:?}", error_info);

    println!("filled ResourceInfo -> {formatted}");

    let expected_filled = "ResourceInfo { resource_type: \"resource-type\", resource_name: \"resource-name\", owner: \"owner\", description: \"description\" }";

    assert!(
        formatted.eq(expected_filled),
        "filled ResourceInfo differs from expected result"
    );

    let gen_any = match error_info.into_any() {
        Err(error) => panic!("Error generating Any from ResourceInfo: {:?}", error),
        Ok(gen_any) => gen_any,
    };
    let formatted = format!("{:?}", gen_any);

    println!("Any generated from ResourceInfo -> {formatted}");

    let expected =
        "Any { type_url: \"type.googleapis.com/google.rpc.ResourceInfo\", value: [10, 13, 114, 101, 115, 111, 117, 114, 99, 101, 45, 116, 121, 112, 101, 18, 13, 114, 101, 115, 111, 117, 114, 99, 101, 45, 110, 97, 109, 101, 26, 5, 111, 119, 110, 101, 114, 34, 11, 100, 101, 115, 99, 114, 105, 112, 116, 105, 111, 110] }";

    assert!(
        formatted.eq(expected),
        "Any from filled ResourceInfo differs from expected result"
    );

    let br_details = match ResourceInfo::from_any(gen_any) {
        Err(error) => panic!("Error generating ResourceInfo from Any: {:?}", error),
        Ok(from_any) => from_any,
    };

    let formatted = format!("{:?}", br_details);

    println!("ResourceInfo generated from Any -> {formatted}");

    assert!(
        formatted.eq(expected_filled),
        "ResourceInfo from Any differs from expected result"
    );
}

#[test]
fn error_info_gen_error_info() {
    let error_info = ErrorInfo::empty();
    let formatted = format!("{:?}", error_info);

    println!("empty ErrorInfo -> {formatted}");

    let expected = "ErrorInfo { reason: \"\", domain: \"\", metadata: {} }";

    assert!(
        formatted.eq(expected),
        "empty ErrorInfo differs from expected result"
    );

    let mut metadata = HashMap::new();
    metadata.insert("instanceLimitPerRequest".to_string(), "100".to_string());

    let error_info = ErrorInfo::with_data("SOME_INFO", "mydomain.com", metadata);

    let formatted = format!("{:?}", error_info);

    println!("filled ErrorInfo -> {formatted}");

    let expected_filled = "ErrorInfo { reason: \"SOME_INFO\", domain: \"mydomain.com\", metadata: {\"instanceLimitPerRequest\": \"100\"} }";

    assert!(
        formatted.eq(expected_filled),
        "filled ErrorInfo differs from expected result"
    );

    let gen_any = match error_info.into_any() {
        Err(error) => panic!("Error generating Any from ErrorInfo: {:?}", error),
        Ok(gen_any) => gen_any,
    };
    let formatted = format!("{:?}", gen_any);

    println!("Any generated from ErrorInfo -> {formatted}");

    let expected =
        "Any { type_url: \"type.googleapis.com/google.rpc.ErrorInfo\", value: [10, 9, 83, 79, 77, 69, 95, 73, 78, 70, 79, 18, 12, 109, 121, 100, 111, 109, 97, 105, 110, 46, 99, 111, 109, 26, 30, 10, 23, 105, 110, 115, 116, 97, 110, 99, 101, 76, 105, 109, 105, 116, 80, 101, 114, 82, 101, 113, 117, 101, 115, 116, 18, 3, 49, 48, 48] }";

    assert!(
        formatted.eq(expected),
        "Any from filled ErrorInfo differs from expected result"
    );

    let br_details = match ErrorInfo::from_any(gen_any) {
        Err(error) => panic!("Error generating ErrorInfo from Any: {:?}", error),
        Ok(from_any) => from_any,
    };

    let formatted = format!("{:?}", br_details);

    println!("ErrorInfo generated from Any -> {formatted}");

    assert!(
        formatted.eq(expected_filled),
        "ErrorInfo from Any differs from expected result"
    );
}

#[test]
fn gen_retry_info() {
    let mut ri_details = RetryInfo::empty();
    let formatted = format!("{:?}", ri_details);

    println!("empty RetryInfo -> {formatted}");

    let expected = "RetryInfo { retry_delay: None }";

    assert!(
        formatted.eq(expected),
        "empty RetryInfo differs from expected result"
    );

    assert!(
        ri_details.has_retry_delay() == false,
        "empty RetryInfo returns 'true' from .has_delay()"
    );

    ri_details.set_retry_delay(Duration::from_secs(5));

    let formatted = format!("{:?}", ri_details);

    println!("filled RetryInfo -> {formatted}");

    let expected_filled = "RetryInfo { retry_delay: Some(5s) }";

    assert!(
        formatted.eq(expected_filled),
        "filled RetryInfo differs from expected result"
    );

    assert!(
        ri_details.has_retry_delay() == true,
        "filled RetryInfo returns 'false' from .has_retry_delay()"
    );

    let gen_any = match ri_details.into_any() {
        Err(error) => panic!("Error generating Any from RetryInfo: {:?}", error),
        Ok(gen_any) => gen_any,
    };
    let formatted = format!("{:?}", gen_any);

    println!("Any generated from RetryInfo -> {formatted}");

    let expected =
        "Any { type_url: \"type.googleapis.com/google.rpc.RetryInfo\", value: [10, 2, 8, 5] }";

    assert!(
        formatted.eq(expected),
        "Any from filled BadRequest differs from expected result"
    );

    let br_details = match RetryInfo::from_any(gen_any) {
        Err(error) => panic!("Error generating RetryInfo from Any: {:?}", error),
        Ok(from_any) => from_any,
    };

    let formatted = format!("{:?}", br_details);

    println!("RetryInfo generated from Any -> {formatted}");

    assert!(
        formatted.eq(expected_filled),
        "RetryInfo from Any differs from expected result"
    );
}

#[test]
fn quota_failure_gen_quota_failure() {
    let mut quota_failure = QuotaFailure::new(Vec::new());
    let formatted = format!("{:?}", quota_failure);

    println!("empty QuotaFailure -> {formatted}");

    let expected = "QuotaFailure { violations: [] }";

    assert!(
        formatted.eq(expected),
        "empty QuotaFailure differs from expected result"
    );

    assert!(
        quota_failure.is_empty(),
        "empty QuotaFailure returns 'false' from .is_empty()"
    );

    quota_failure
        .add_violation("clientip:<ip address>", "description a")
        .add_violation("project:<project id>", "description b");

    let formatted = format!("{:?}", quota_failure);

    println!("filled QuotaFailure -> {formatted}");

    let expected_filled = "QuotaFailure { violations: [QuotaViolation { subject: \"clientip:<ip address>\", description: \"description a\" }, QuotaViolation { subject: \"project:<project id>\", description: \"description b\" }] }";

    assert!(
        formatted.eq(expected_filled),
        "filled QuotaFailure differs from expected result"
    );

    assert!(
        quota_failure.is_empty() == false,
        "filled QuotaFailure returns 'true' from .is_empty()"
    );

    let gen_any = match quota_failure.into_any() {
        Err(error) => panic!("Error generating Any from QuotaFailure: {:?}", error),
        Ok(gen_any) => gen_any,
    };
    let formatted = format!("{:?}", gen_any);

    println!("Any generated from QuotaFailure -> {formatted}");

    let expected = "Any { type_url: \"type.googleapis.com/google.rpc.QuotaFailure\", value: [10, 38, 10, 21, 99, 108, 105, 101, 110, 116, 105, 112, 58, 60, 105, 112, 32, 97, 100, 100, 114, 101, 115, 115, 62, 18, 13, 100, 101, 115, 99, 114, 105, 112, 116, 105, 111, 110, 32, 97, 10, 37, 10, 20, 112, 114, 111, 106, 101, 99, 116, 58, 60, 112, 114, 111, 106, 101, 99, 116, 32, 105, 100, 62, 18, 13, 100, 101, 115, 99, 114, 105, 112, 116, 105, 111, 110, 32, 98] }";

    assert!(
        formatted.eq(expected),
        "Any from filled QuotaFailure differs from expected result"
    );

    let br_details = match QuotaFailure::from_any(gen_any) {
        Err(error) => panic!("Error generating QuotaFailure from Any: {:?}", error),
        Ok(from_any) => from_any,
    };

    let formatted = format!("{:?}", br_details);

    println!("QuotaFailure generated from Any -> {formatted}");

    assert!(
        formatted.eq(expected_filled),
        "QuotaFailure from Any differs from expected result"
    );
}

#[test]
fn retry_info_gen_retry_info() {
    let ri_details = RetryInfo::new(Some(Duration::from_secs(u64::MAX)));

    let formatted = format!("{:?}", ri_details);

    println!("filled RetryInfo -> {formatted}");

    let expected_filled = "RetryInfo { retry_delay: Some(315576000000.999999999s) }";

    assert!(
        formatted.eq(expected_filled),
        "filled RetryInfo differs from expected result"
    );

    assert!(
        ri_details.is_empty() == false,
        "filled RetryInfo returns 'false' from .has_retry_delay()"
    );

    let gen_any = match ri_details.into_any() {
        Err(error) => panic!("Error generating Any from RetryInfo: {:?}", error),
        Ok(gen_any) => gen_any,
    };
    let formatted = format!("{:?}", gen_any);

    println!("Any generated from RetryInfo -> {formatted}");

    let expected =
        "Any { type_url: \"type.googleapis.com/google.rpc.RetryInfo\", value: [10, 13, 8, 128, 188, 174, 206, 151, 9, 16, 255, 147, 235, 220, 3] }";

    assert!(
        formatted.eq(expected),
        "Any from filled RetryInfo differs from expected result"
    );

    let br_details = match RetryInfo::from_any(gen_any) {
        Err(error) => panic!("Error generating RetryInfo from Any: {:?}", error),
        Ok(from_any) => from_any,
    };

    let formatted = format!("{:?}", br_details);

    println!("RetryInfo generated from Any -> {formatted}");

    assert!(
        formatted.eq(expected_filled),
        "RetryInfo from Any differs from expected result"
    );
}
