use std::collections::HashMap;
use std::time::Duration;

use tonic::Code;
use tonic::Status;
use tonic_richer_error::BadRequest;
use tonic_richer_error::DebugInfo;
use tonic_richer_error::ErrorDetails;
use tonic_richer_error::ErrorInfo;
use tonic_richer_error::Help;
use tonic_richer_error::LocalizedMessage;
use tonic_richer_error::PreconditionFailure;
use tonic_richer_error::QuotaFailure;
use tonic_richer_error::RequestInfo;
use tonic_richer_error::ResourceInfo;
use tonic_richer_error::RetryInfo;
use tonic_richer_error::WithErrorDetails;

#[test]
fn gen_status_with_details() {
    let mut metadata = HashMap::new();
    metadata.insert("limitPerRequest".to_string(), "100".into());

    let mut err_details = ErrorDetails::new();

    err_details
        .set_retry_info(Some(Duration::from_secs(5)))
        .set_debug_info(
            vec![
                "trace3".to_string(),
                "trace2".to_string(),
                "trace1".to_string(),
            ],
            "details",
        )
        .add_quota_failure_violation("clientip:<ip address>", "description")
        .set_error_info("SOME_INFO", "example.local", metadata.clone())
        .add_precondition_failure_violation("TOS", "example.local", "description")
        .add_bad_request_violation("field", "description")
        .set_request_info("request-id", "some-request-data")
        .set_resource_info("resource-type", "resource-name", "owner", "description")
        .add_help_link("link to resource", "resource.example.local")
        .set_localized_message("en-US", "message for the user");

    let fmt_details = format!("{:?}", err_details);

    println!("{fmt_details}\n");

    let err_details_vec = vec![
        RetryInfo::new(Some(Duration::from_secs(5))).into(),
        DebugInfo::new(
            vec![
                "trace3".to_string(),
                "trace2".to_string(),
                "trace1".to_string(),
            ],
            "details",
        )
        .into(),
        QuotaFailure::with_violation("clientip:<ip address>", "description").into(),
        ErrorInfo::new("SOME_INFO", "example.local", metadata).into(),
        PreconditionFailure::with_violation("TOS", "example.local", "description").into(),
        BadRequest::with_violation("field", "description").into(),
        RequestInfo::new("request-id", "some-request-data").into(),
        ResourceInfo::new("resource-type", "resource-name", "owner", "description").into(),
        Help::with_link("link to resource", "resource.example.local").into(),
        LocalizedMessage::new("en-US", "message for the user").into(),
    ];

    let fmt_details_vec = format!("{:?}", err_details_vec);

    println!("{fmt_details_vec}\n");

    let status_from_struct = match Status::with_error_details(
        Code::InvalidArgument,
        "error with bad request details",
        err_details,
    ) {
        Ok(status) => status,
        Err(err) => panic!("Error generating status: {:?}", err),
    };

    let fmt_status_with_details = format!("{:?}", status_from_struct);

    println!("{:?}\n", fmt_status_with_details);

    let status_from_vec = match Status::with_error_details_vec(
        Code::InvalidArgument,
        "error with bad request details",
        err_details_vec,
    ) {
        Ok(status) => status,
        Err(err) => panic!("Error generating status: {:?}", err),
    };

    let fmt_status_with_details_vec = format!("{:?}", status_from_vec);

    println!("{:?}\n", fmt_status_with_details_vec);

    let ext_details = match status_from_vec.get_error_details() {
        Ok(ext_details) => ext_details,
        Err(err) => panic!(
            "Error extracting details struct from status_from_vec: {:?}",
            err
        ),
    };

    let fmt_ext_details = format!("{:?}", ext_details);

    println!("{:?}\n", ext_details.debug_info);
    println!("{fmt_ext_details}\n");

    assert!(
        fmt_ext_details.eq(&fmt_details),
        "Extracted details struct differs from original details struct"
    );

    let ext_details_vec = match status_from_struct.get_error_details_vec() {
        Ok(ext_details) => ext_details,
        Err(err) => panic!(
            "Error extracting details_vec from status_from_struct: {:?}",
            err
        ),
    };

    let fmt_ext_details_vec = format!("{:?}", ext_details_vec);

    println!("fmt_ext_details_vec: {:?}\n", fmt_ext_details_vec);

    assert!(
        fmt_ext_details_vec.eq(&fmt_details_vec),
        "Extracted details vec differs from original details vec"
    );
}
