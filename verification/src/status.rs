//! Statuses that carry details: how details are packed into the payload of
//! a `tonic::Status`, and how they are found in it again.

use vstd::prelude::*;
use prost_types::Any;
use tonic::Code;
use tonic::Status;
use crate::error::DecodeFailure;
use crate::error::EncodeFailure;
use crate::error_details::collected;
use crate::error_details::lemma_collected_listed;
use crate::error_details::lemma_settled_listed;
use crate::error_details::ErrorDetails;
use crate::error_details::ErrorDetailsView;
use crate::error_details_vec::are_blobs_of;
use crate::error_details_vec::detail_views;
use crate::error_details_vec::details_from_blobs;
use crate::error_details_vec::details_to_blobs;
use crate::error_details_vec::kind_of;
use crate::error_details_vec::kind_of_url;
use crate::error_details_vec::lemma_read_blobs;
use crate::error_details_vec::read_detail;
use crate::error_details_vec::read_details;
use crate::error_details_vec::settled_all;
use crate::error_details_vec::ErrorDetail;
use crate::error_details_vec::ErrorDetailView;
use crate::error_details_vec::Kind;
use crate::message::decode;
use crate::message::decoded;
use crate::message::encode;
use crate::message::lemma_repeated_item_len;
use crate::message::models;
use crate::message::nested_payload;
use crate::message::Message;
use crate::message::RoundTrip;
use crate::status_message::AnyView;
use crate::status_message::StatusMessage;
use crate::status_message::StatusView;
use crate::std_messages::BadRequest;
use crate::std_messages::DebugInfo;
use crate::std_messages::ErrorInfo;
use crate::std_messages::Help;
use crate::std_messages::LocalizedMessage;
use crate::std_messages::PreconditionFailure;
use crate::std_messages::QuotaFailure;
use crate::std_messages::RequestInfo;
use crate::std_messages::ResourceInfo;
use crate::std_messages::RetryInfo;

verus! {

/// `tonic::Status`: nothing is known of what it holds but what the names
/// below say.
#[verifier::external_type_specification]
#[verifier::external_body]
pub struct ExStatus(Status);

/// `tonic::Code`: the code of a status; nothing is known of it but its
/// number.
#[verifier::external_type_specification]
#[verifier::external_body]
pub struct ExCode(Code);

/// The code of a status, as `Status::code` gives it.
pub uninterp spec fn status_code(status: Status) -> Code;

/// The message of a status, as `Status::message` gives it.
pub uninterp spec fn status_message(status: Status) -> Seq<char>;

/// The payload of a status, as `Status::details` gives it.
pub uninterp spec fn status_details(status: Status) -> Seq<u8>;

/// The number of a code, as the conversion of `Code` into `i32` gives it.
pub uninterp spec fn code_number(code: Code) -> i32;

/// `Status::with_details`: a status of the given code, message and payload.
#[verifier::external_body]
pub(crate) fn new_status(code: Code, message: String, details: Vec<u8>) -> (status: Status)
    ensures
        status_code(status) == code,
        status_message(status) == message@,
        status_details(status) == details@,
{
    Status::with_details(code, message, details.into())
}

/// `Status::details`: the payload of a status.
#[verifier::external_body]
pub(crate) fn payload_of_status<'a>(status: &'a Status) -> (payload: &'a [u8])
    ensures
        payload@ == status_details(*status),
{
    status.details()
}

/// `i32::from` a code: the number of the code.
#[verifier::external_body]
pub(crate) fn number_of_code(code: Code) -> (number: i32)
    ensures
        number == code_number(code),
{
    i32::from(code)
}

/// The bytes of a payload that holds the given code, message and blobs.
pub open spec fn payload_bytes(code: i32, message: Seq<char>, blobs: Seq<AnyView>) -> Seq<u8> {
    StatusMessage::encoded(StatusView { code, message, details: blobs })
}

/// Whether `bytes` are a payload of the given code, message and details:
/// the bytes of a payload that holds, for the details, blobs of them, one
/// for one and in order.
pub open spec fn is_payload_of(
    code: i32,
    message: Seq<char>,
    details: Seq<ErrorDetailView>,
    bytes: Seq<u8>,
) -> bool {
    exists|blobs: Seq<AnyView>| #[trigger]
        are_blobs_of(details, blobs) && bytes == payload_bytes(code, message, blobs)
}

/// The blobs that a payload holds.
pub open spec fn blobs_in(payload: Seq<u8>) -> Option<Seq<AnyView>> {
    match decoded::<StatusMessage>(payload) {
        Some(status) => Some(status.details),
        None => None,
    }
}

/// The list view of a payload: the details that its blobs decode to, in
/// order. A blob of an unknown kind is passed over. `None` where the payload
/// or a blob of a known kind is malformed.
pub open spec fn list_view(payload: Seq<u8>) -> Option<Seq<ErrorDetailView>> {
    match blobs_in(payload) {
        Some(blobs) => read_details(blobs),
        None => None,
    }
}

/// The set view of a payload: the details of its list view put into an
/// empty set one after another, so that of two details of one kind the
/// later one stays.
pub open spec fn set_view(payload: Seq<u8>) -> Option<ErrorDetailsView> {
    match list_view(payload) {
        Some(details) => Some(collected(details)),
        None => None,
    }
}

/// The first of `blobs` that names `kind` and decodes: what it decodes to.
/// Blobs of other kinds, and malformed blobs of this kind, are passed over.
pub open spec fn first_among(kind: Kind, blobs: Seq<AnyView>) -> Option<ErrorDetailView>
    decreases blobs.len(),
{
    if blobs.len() == 0 {
        None
    } else if kind_of_url(blobs[0].type_url) == Some(kind) && read_detail(kind, blobs[0].value)
        is Some {
        read_detail(kind, blobs[0].value)
    } else {
        first_among(kind, blobs.skip(1))
    }
}

/// The first detail of `kind` that a payload holds and that decodes. `None`
/// where there is none or the payload is malformed.
pub open spec fn first_of(kind: Kind, payload: Seq<u8>) -> Option<ErrorDetailView> {
    match blobs_in(payload) {
        Some(blobs) => first_among(kind, blobs),
        None => None,
    }
}

/// No blob of a payload is longer than the payload.
pub proof fn lemma_blob_len(code: i32, message: Seq<char>, blobs: Seq<AnyView>, i: int)
    requires
        0 <= i < blobs.len(),
    ensures
        blobs[i].value.len() <= payload_bytes(code, message, blobs).len(),
{
    lemma_repeated_item_len(
        3,
        prost::encoding::WireType::LengthDelimited,
        blobs,
        nested_payload::<Any>(),
        i,
    );
}

/// The catalog round trip: a payload of a list of details, of fewer than
/// 2^64 bytes, has the details as they are encoded for its list view; these
/// are the details themselves where no delay is above the longest one.
pub proof fn lemma_list_round_trip(
    code: i32,
    message: Seq<char>,
    details: Seq<ErrorDetailView>,
    payload: Seq<u8>,
)
    requires
        is_payload_of(code, message, details, payload),
        payload.len() <= u64::MAX,
    ensures
        list_view(payload) == Some(settled_all(details)),
        (forall|i: int| 0 <= i < details.len() ==> (#[trigger] details[i]).settled() == details[i])
            ==> list_view(payload) == Some(details),
{
    let blobs = choose|blobs: Seq<AnyView>| #[trigger]
        are_blobs_of(details, blobs) && payload == payload_bytes(code, message, blobs);
    StatusMessage::lemma_round_trip(StatusView { code, message, details: blobs });
    assert forall|i: int| 0 <= i < blobs.len() implies (#[trigger] blobs[i]).value.len()
        <= u64::MAX by {
        lemma_blob_len(code, message, blobs, i);
    }
    lemma_read_blobs(details, blobs);
    if forall|i: int| 0 <= i < details.len() ==> (#[trigger] details[i]).settled() == details[i] {
        assert(settled_all(details) =~= details);
    }
}

/// The set round trip: a payload of the details of a set, listed in the
/// order of the catalog, of fewer than 2^64 bytes, has the set as it is
/// encoded for its set view; this is the set itself where its delay is not
/// above the longest one.
pub proof fn lemma_set_round_trip(
    code: i32,
    message: Seq<char>,
    set: ErrorDetailsView,
    payload: Seq<u8>,
)
    requires
        is_payload_of(code, message, set.listed(), payload),
        payload.len() <= u64::MAX,
    ensures
        set_view(payload) == Some(set.settled()),
        set.settled() == set ==> set_view(payload) == Some(set),
{
    lemma_list_round_trip(code, message, set.listed(), payload);
    lemma_settled_listed(set);
    lemma_collected_listed(set.settled());
}

/// The bytes of a payload that holds the given code, message and blobs.
pub fn encode_payload(code: i32, message: &str, blobs: Vec<Any>) -> (payload: Vec<u8>)
    ensures
        payload@ == payload_bytes(code, message@, models::<Any>(blobs@)),
        blobs_in(payload@) == Some(models::<Any>(blobs@)),
{
    let status = StatusMessage { code, message: message.to_owned(), details: blobs };
    let payload = encode(&status);
    let size: usize = payload.len();
    proof {
        assert(payload@.len() == size);
        StatusMessage::lemma_round_trip(status@);
    }
    payload
}

/// The blobs that a payload holds.
pub fn decode_payload(payload: &[u8]) -> (r: Result<Vec<Any>, DecodeFailure>)
    ensures
        match r {
            Ok(blobs) => blobs_in(payload@) == Some(models::<Any>(blobs@)),
            Err(_) => blobs_in(payload@) is None,
        },
{
    let status: StatusMessage = decode(payload)?;
    Ok(status.details)
}

/// The first of `blobs` that names `kind` and decodes: what it decodes to.
pub fn find_first(kind: Kind, blobs: &Vec<Any>) -> (r: Option<ErrorDetail>)
    ensures
        match r {
            Some(detail) => first_among(kind, models::<Any>(blobs@)) == Some(detail@)
                && detail@.kind() == kind,
            None => first_among(kind, models::<Any>(blobs@)) is None,
        },
{
    let ghost all = models::<Any>(blobs@);
    let mut i: usize = 0;
    assert(all.skip(0) =~= all);
    while i < blobs.len()
        invariant
            i <= blobs.len(),
            all == models::<Any>(blobs@),
            first_among(kind, all) == first_among(kind, all.skip(i as int)),
        decreases blobs.len() - i,
    {
        proof {
            assert(all.skip(i as int)[0] == blobs@[i as int].model());
            assert(all.skip(i as int).skip(1) =~= all.skip(i + 1));
        }
        match kind_of(blobs[i].type_url.as_str()) {
            Some(found) => {
                if same_kind(found, kind) {
                    match ErrorDetail::from_bytes(kind, blobs[i].value.as_slice()) {
                        Ok(detail) => {
                            return Some(detail);
                        },
                        Err(_) => {},
                    }
                }
            },
            None => {},
        }
        i += 1;
    }
    None
}

/// Whether two kinds are the same.
pub fn same_kind(a: Kind, b: Kind) -> (r: bool)
    ensures
        r == (a == b),
{
    match (a, b) {
        (Kind::RetryInfo, Kind::RetryInfo) => true,
        (Kind::DebugInfo, Kind::DebugInfo) => true,
        (Kind::QuotaFailure, Kind::QuotaFailure) => true,
        (Kind::ErrorInfo, Kind::ErrorInfo) => true,
        (Kind::PreconditionFailure, Kind::PreconditionFailure) => true,
        (Kind::BadRequest, Kind::BadRequest) => true,
        (Kind::RequestInfo, Kind::RequestInfo) => true,
        (Kind::ResourceInfo, Kind::ResourceInfo) => true,
        (Kind::Help, Kind::Help) => true,
        (Kind::LocalizedMessage, Kind::LocalizedMessage) => true,
        _ => false,
    }
}

/// Statuses that carry details of the ten kinds in their payload.
pub trait WithErrorDetails: Sized {
    /// The code that this status carries.
    spec fn carried_code(&self) -> Code;

    /// The message that this status carries.
    spec fn carried_message(&self) -> Seq<char>;

    /// The payload that this status carries.
    spec fn carried_details(&self) -> Seq<u8>;

    /// The number that stands for a code in a payload.
    spec fn number_of(code: Code) -> i32;

    /// A status of the given code and message whose payload holds the
    /// details of a set, in the order of the catalog. It never fails, and
    /// the set view of the payload is the set as it is encoded.
    fn with_error_details(code: Code, message: &str, details: ErrorDetails) -> (r: Result<
        Self,
        EncodeFailure,
    >)
        ensures
            r matches Ok(status) && status.carried_code() == code && status.carried_message()
                == message@ && is_payload_of(
                Self::number_of(code),
                message@,
                details@.listed(),
                status.carried_details(),
            ) && set_view(status.carried_details()) == Some(details@.settled()),
    ;

    /// A status of the given code and message whose payload holds the
    /// details of a list, in the order of the list. It never fails, and the
    /// list view of the payload are the details as they are encoded.
    fn with_error_details_vec(code: Code, message: &str, details: Vec<ErrorDetail>) -> (r: Result<
        Self,
        EncodeFailure,
    >)
        ensures
            r matches Ok(status) && status.carried_code() == code && status.carried_message()
                == message@ && is_payload_of(
                Self::number_of(code),
                message@,
                detail_views(details@),
                status.carried_details(),
            ) && list_view(status.carried_details()) == Some(settled_all(detail_views(details@))),
    ;

    /// The set view of the payload. It fails where the payload or a blob of
    /// a known kind in it is malformed.
    fn get_error_details(&self) -> (r: Result<ErrorDetails, DecodeFailure>)
        ensures
            match r {
                Ok(details) => set_view(self.carried_details()) == Some(details@),
                Err(_) => set_view(self.carried_details()) is None,
            },
    ;

    /// The list view of the payload. It fails where the payload or a blob
    /// of a known kind in it is malformed.
    fn get_error_details_vec(&self) -> (r: Result<Vec<ErrorDetail>, DecodeFailure>)
        ensures
            match r {
                Ok(details) => list_view(self.carried_details()) == Some(detail_views(details@)),
                Err(_) => list_view(self.carried_details()) is None,
            },
    ;

    /// The first `RetryInfo` that the payload holds and that decodes.
    fn get_details_retry_info(&self) -> (r: Option<RetryInfo>)
        ensures
            match r {
                Some(found) => first_of(Kind::RetryInfo, self.carried_details()) == Some(
                    ErrorDetailView::RetryInfo(found@),
                ),
                None => first_of(Kind::RetryInfo, self.carried_details()) is None,
            },
    ;

    /// The first `DebugInfo` that the payload holds and that decodes.
    fn get_details_debug_info(&self) -> (r: Option<DebugInfo>)
        ensures
            match r {
                Some(found) => first_of(Kind::DebugInfo, self.carried_details()) == Some(
                    ErrorDetailView::DebugInfo(found@),
                ),
                None => first_of(Kind::DebugInfo, self.carried_details()) is None,
            },
    ;

    /// The first `QuotaFailure` that the payload holds and that decodes.
    fn get_details_quota_failure(&self) -> (r: Option<QuotaFailure>)
        ensures
            match r {
                Some(found) => first_of(Kind::QuotaFailure, self.carried_details()) == Some(
                    ErrorDetailView::QuotaFailure(found@),
                ),
                None => first_of(Kind::QuotaFailure, self.carried_details()) is None,
            },
    ;

    /// The first `ErrorInfo` that the payload holds and that decodes.
    fn get_details_error_info(&self) -> (r: Option<ErrorInfo>)
        ensures
            match r {
                Some(found) => first_of(Kind::ErrorInfo, self.carried_details()) == Some(
                    ErrorDetailView::ErrorInfo(found@),
                ),
                None => first_of(Kind::ErrorInfo, self.carried_details()) is None,
            },
    ;

    /// The first `PreconditionFailure` that the payload holds and that decodes.
    fn get_details_precondition_failure(&self) -> (r: Option<PreconditionFailure>)
        ensures
            match r {
                Some(found) => first_of(Kind::PreconditionFailure, self.carried_details()) == Some(
                    ErrorDetailView::PreconditionFailure(found@),
                ),
                None => first_of(Kind::PreconditionFailure, self.carried_details()) is None,
            },
    ;

    /// The first `BadRequest` that the payload holds and that decodes.
    fn get_details_bad_request(&self) -> (r: Option<BadRequest>)
        ensures
            match r {
                Some(found) => first_of(Kind::BadRequest, self.carried_details()) == Some(
                    ErrorDetailView::BadRequest(found@),
                ),
                None => first_of(Kind::BadRequest, self.carried_details()) is None,
            },
    ;

    /// The first `RequestInfo` that the payload holds and that decodes.
    fn get_details_request_info(&self) -> (r: Option<RequestInfo>)
        ensures
            match r {
                Some(found) => first_of(Kind::RequestInfo, self.carried_details()) == Some(
                    ErrorDetailView::RequestInfo(found@),
                ),
                None => first_of(Kind::RequestInfo, self.carried_details()) is None,
            },
    ;

    /// The first `ResourceInfo` that the payload holds and that decodes.
    fn get_details_resource_info(&self) -> (r: Option<ResourceInfo>)
        ensures
            match r {
                Some(found) => first_of(Kind::ResourceInfo, self.carried_details()) == Some(
                    ErrorDetailView::ResourceInfo(found@),
                ),
                None => first_of(Kind::ResourceInfo, self.carried_details()) is None,
            },
    ;

    /// The first `Help` that the payload holds and that decodes.
    fn get_details_help(&self) -> (r: Option<Help>)
        ensures
            match r {
                Some(found) => first_of(Kind::Help, self.carried_details()) == Some(
                    ErrorDetailView::Help(found@),
                ),
                None => first_of(Kind::Help, self.carried_details()) is None,
            },
    ;

    /// The first `LocalizedMessage` that the payload holds and that decodes.
    fn get_details_localized_message(&self) -> (r: Option<LocalizedMessage>)
        ensures
            match r {
                Some(found) => first_of(Kind::LocalizedMessage, self.carried_details()) == Some(
                    ErrorDetailView::LocalizedMessage(found@),
                ),
                None => first_of(Kind::LocalizedMessage, self.carried_details()) is None,
            },
    ;

}

/// The first detail of `kind` that the payload of a status holds and that
/// decodes.
fn first_in_status(kind: Kind, status: &Status) -> (r: Option<ErrorDetail>)
    ensures
        match r {
            Some(detail) => first_of(kind, status_details(*status)) == Some(detail@)
                && detail@.kind() == kind,
            None => first_of(kind, status_details(*status)) is None,
        },
{
    match decode_payload(payload_of_status(status)) {
        Ok(blobs) => find_first(kind, &blobs),
        Err(_) => None,
    }
}

impl WithErrorDetails for Status {
    open spec fn carried_code(&self) -> Code {
        status_code(*self)
    }

    open spec fn carried_message(&self) -> Seq<char> {
        status_message(*self)
    }

    open spec fn carried_details(&self) -> Seq<u8> {
        status_details(*self)
    }

    open spec fn number_of(code: Code) -> i32 {
        code_number(code)
    }

    fn with_error_details(code: Code, message: &str, details: ErrorDetails) -> (r: Result<
        Self,
        EncodeFailure,
    >) {
        let ghost set = details@;
        let list = details.into_list();
        let r = Self::with_error_details_vec(code, message, list);
        proof {
            lemma_settled_listed(set);
            lemma_collected_listed(set.settled());
        }
        r
    }

    fn with_error_details_vec(code: Code, message: &str, details: Vec<ErrorDetail>) -> (r: Result<
        Self,
        EncodeFailure,
    >) {
        let blobs = details_to_blobs(&details);
        let ghost made = models::<Any>(blobs@);
        let payload = encode_payload(number_of_code(code), message, blobs);
        assert(are_blobs_of(detail_views(details@), made) && payload@ == payload_bytes(
            code_number(code),
            message@,
            made,
        ));
        Ok(new_status(code, message.to_owned(), payload))
    }

    fn get_error_details(&self) -> (r: Result<ErrorDetails, DecodeFailure>) {
        let details = self.get_error_details_vec()?;
        Ok(ErrorDetails::from_list(details))
    }

    fn get_error_details_vec(&self) -> (r: Result<Vec<ErrorDetail>, DecodeFailure>) {
        let blobs = decode_payload(payload_of_status(self))?;
        details_from_blobs(&blobs)
    }

    fn get_details_retry_info(&self) -> (r: Option<RetryInfo>) {
        match first_in_status(Kind::RetryInfo, self) {
            Some(ErrorDetail::RetryInfo(found)) => Some(found),
            _ => None,
        }
    }

    fn get_details_debug_info(&self) -> (r: Option<DebugInfo>) {
        match first_in_status(Kind::DebugInfo, self) {
            Some(ErrorDetail::DebugInfo(found)) => Some(found),
            _ => None,
        }
    }

    fn get_details_quota_failure(&self) -> (r: Option<QuotaFailure>) {
        match first_in_status(Kind::QuotaFailure, self) {
            Some(ErrorDetail::QuotaFailure(found)) => Some(found),
            _ => None,
        }
    }

    fn get_details_error_info(&self) -> (r: Option<ErrorInfo>) {
        match first_in_status(Kind::ErrorInfo, self) {
            Some(ErrorDetail::ErrorInfo(found)) => Some(found),
            _ => None,
        }
    }

    fn get_details_precondition_failure(&self) -> (r: Option<PreconditionFailure>) {
        match first_in_status(Kind::PreconditionFailure, self) {
            Some(ErrorDetail::PreconditionFailure(found)) => Some(found),
            _ => None,
        }
    }

    fn get_details_bad_request(&self) -> (r: Option<BadRequest>) {
        match first_in_status(Kind::BadRequest, self) {
            Some(ErrorDetail::BadRequest(found)) => Some(found),
            _ => None,
        }
    }

    fn get_details_request_info(&self) -> (r: Option<RequestInfo>) {
        match first_in_status(Kind::RequestInfo, self) {
            Some(ErrorDetail::RequestInfo(found)) => Some(found),
            _ => None,
        }
    }

    fn get_details_resource_info(&self) -> (r: Option<ResourceInfo>) {
        match first_in_status(Kind::ResourceInfo, self) {
            Some(ErrorDetail::ResourceInfo(found)) => Some(found),
            _ => None,
        }
    }

    fn get_details_help(&self) -> (r: Option<Help>) {
        match first_in_status(Kind::Help, self) {
            Some(ErrorDetail::Help(found)) => Some(found),
            _ => None,
        }
    }

    fn get_details_localized_message(&self) -> (r: Option<LocalizedMessage>) {
        match first_in_status(Kind::LocalizedMessage, self) {
            Some(ErrorDetail::LocalizedMessage(found)) => Some(found),
            _ => None,
        }
    }

}

} // verus!
