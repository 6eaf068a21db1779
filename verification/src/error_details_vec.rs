//! The catalog of the ten kinds, and lists of details of any kind.

use vstd::prelude::*;
use prost_types::Any;
use crate::error::DecodeFailure;
use crate::error::EncodeFailure;
use crate::message::decode;
use crate::message::decoded;
use crate::message::models;
use crate::message::Message;
use crate::message::RoundTrip;
use crate::status_message::AnyView;
use crate::std_messages::bad_request::FieldViolationView;
use crate::std_messages::debug_info::DebugInfoView;
use crate::std_messages::error_info::ErrorInfoView;
use crate::std_messages::help::HelpLinkView;
use crate::std_messages::loc_message::LocalizedMessageView;
use crate::std_messages::prec_failure::PreconditionViolationView;
use crate::std_messages::quota_failure::QuotaViolationView;
use crate::std_messages::request_info::RequestInfoView;
use crate::std_messages::resource_info::ResourceInfoView;
use crate::std_messages::BadRequest;
use crate::std_messages::DebugInfo;
use crate::std_messages::ErrorInfo;
use crate::std_messages::Help;
use crate::std_messages::LocalizedMessage;
use crate::std_messages::PreconditionFailure;
use crate::std_messages::QuotaFailure;
use crate::std_messages::RequestInfo;
use crate::std_messages::ResourceInfo;
use crate::std_messages::RetryInfo;
use crate::wire::same_text;

verus! {

/// The ten kinds of details, in the order of the catalog.
#[derive(Clone, Copy, Debug, PartialEq, Eq)]
pub enum Kind {
    RetryInfo,
    DebugInfo,
    QuotaFailure,
    ErrorInfo,
    PreconditionFailure,
    BadRequest,
    RequestInfo,
    ResourceInfo,
    Help,
    LocalizedMessage,
}

/// The type identifier of a kind.
pub open spec fn url_of(kind: Kind) -> Seq<char> {
    match kind {
        Kind::RetryInfo => RetryInfo::TYPE_URL@,
        Kind::DebugInfo => DebugInfo::TYPE_URL@,
        Kind::QuotaFailure => QuotaFailure::TYPE_URL@,
        Kind::ErrorInfo => ErrorInfo::TYPE_URL@,
        Kind::PreconditionFailure => PreconditionFailure::TYPE_URL@,
        Kind::BadRequest => BadRequest::TYPE_URL@,
        Kind::RequestInfo => RequestInfo::TYPE_URL@,
        Kind::ResourceInfo => ResourceInfo::TYPE_URL@,
        Kind::Help => Help::TYPE_URL@,
        Kind::LocalizedMessage => LocalizedMessage::TYPE_URL@,
    }
}

/// The kind that a type identifier names, if it names one.
pub open spec fn kind_of_url(url: Seq<char>) -> Option<Kind> {
    if url == RetryInfo::TYPE_URL@ {
        Some(Kind::RetryInfo)
    } else if url == DebugInfo::TYPE_URL@ {
        Some(Kind::DebugInfo)
    } else if url == QuotaFailure::TYPE_URL@ {
        Some(Kind::QuotaFailure)
    } else if url == ErrorInfo::TYPE_URL@ {
        Some(Kind::ErrorInfo)
    } else if url == PreconditionFailure::TYPE_URL@ {
        Some(Kind::PreconditionFailure)
    } else if url == BadRequest::TYPE_URL@ {
        Some(Kind::BadRequest)
    } else if url == RequestInfo::TYPE_URL@ {
        Some(Kind::RequestInfo)
    } else if url == ResourceInfo::TYPE_URL@ {
        Some(Kind::ResourceInfo)
    } else if url == Help::TYPE_URL@ {
        Some(Kind::Help)
    } else if url == LocalizedMessage::TYPE_URL@ {
        Some(Kind::LocalizedMessage)
    } else {
        None
    }
}

/// The ten type identifiers differ from each other.
pub proof fn lemma_kind_of_url(kind: Kind)
    ensures
        kind_of_url(url_of(kind)) == Some(kind),
{
    reveal_strlit("type.googleapis.com/google.rpc.RetryInfo");
    reveal_strlit("type.googleapis.com/google.rpc.DebugInfo");
    reveal_strlit("type.googleapis.com/google.rpc.QuotaFailure");
    reveal_strlit("type.googleapis.com/google.rpc.ErrorInfo");
    reveal_strlit("type.googleapis.com/google.rpc.PreconditionFailure");
    reveal_strlit("type.googleapis.com/google.rpc.BadRequest");
    reveal_strlit("type.googleapis.com/google.rpc.RequestInfo");
    reveal_strlit("type.googleapis.com/google.rpc.ResourceInfo");
    reveal_strlit("type.googleapis.com/google.rpc.Help");
    reveal_strlit("type.googleapis.com/google.rpc.LocalizedMessage");
    assert(RetryInfo::TYPE_URL@.len() == 40);
    assert(RetryInfo::TYPE_URL@[31] == 'R');
    assert(DebugInfo::TYPE_URL@.len() == 40);
    assert(DebugInfo::TYPE_URL@[31] == 'D');
    assert(QuotaFailure::TYPE_URL@.len() == 43);
    assert(QuotaFailure::TYPE_URL@[31] == 'Q');
    assert(ErrorInfo::TYPE_URL@.len() == 40);
    assert(ErrorInfo::TYPE_URL@[31] == 'E');
    assert(PreconditionFailure::TYPE_URL@.len() == 50);
    assert(PreconditionFailure::TYPE_URL@[31] == 'P');
    assert(BadRequest::TYPE_URL@.len() == 41);
    assert(BadRequest::TYPE_URL@[31] == 'B');
    assert(RequestInfo::TYPE_URL@.len() == 42);
    assert(RequestInfo::TYPE_URL@[31] == 'R');
    assert(ResourceInfo::TYPE_URL@.len() == 43);
    assert(ResourceInfo::TYPE_URL@[31] == 'R');
    assert(Help::TYPE_URL@.len() == 35);
    assert(Help::TYPE_URL@[31] == 'H');
    assert(LocalizedMessage::TYPE_URL@.len() == 47);
    assert(LocalizedMessage::TYPE_URL@[31] == 'L');
}

/// The kind that a type identifier names, if it names one.
pub fn kind_of(url: &str) -> (r: Option<Kind>)
    ensures
        r == kind_of_url(url@),
{
    if same_text(url, RetryInfo::TYPE_URL) {
        Some(Kind::RetryInfo)
    } else if same_text(url, DebugInfo::TYPE_URL) {
        Some(Kind::DebugInfo)
    } else if same_text(url, QuotaFailure::TYPE_URL) {
        Some(Kind::QuotaFailure)
    } else if same_text(url, ErrorInfo::TYPE_URL) {
        Some(Kind::ErrorInfo)
    } else if same_text(url, PreconditionFailure::TYPE_URL) {
        Some(Kind::PreconditionFailure)
    } else if same_text(url, BadRequest::TYPE_URL) {
        Some(Kind::BadRequest)
    } else if same_text(url, RequestInfo::TYPE_URL) {
        Some(Kind::RequestInfo)
    } else if same_text(url, ResourceInfo::TYPE_URL) {
        Some(Kind::ResourceInfo)
    } else if same_text(url, Help::TYPE_URL) {
        Some(Kind::Help)
    } else if same_text(url, LocalizedMessage::TYPE_URL) {
        Some(Kind::LocalizedMessage)
    } else {
        None
    }
}

/// A detail of one of the ten kinds.
#[derive(Clone, Debug)]
pub enum ErrorDetail {
    /// When clients can retry a failed request.
    RetryInfo(RetryInfo),
    /// Additional debugging information.
    DebugInfo(DebugInfo),
    /// How a quota check failed.
    QuotaFailure(QuotaFailure),
    /// The cause of the error, with structured details.
    ErrorInfo(ErrorInfo),
    /// Which preconditions have failed.
    PreconditionFailure(PreconditionFailure),
    /// Violations in a client request.
    BadRequest(BadRequest),
    /// Metadata about the request that failed.
    RequestInfo(RequestInfo),
    /// The resource that is being accessed.
    ResourceInfo(ResourceInfo),
    /// Links to documentation.
    Help(Help),
    /// An error message in a given locale.
    LocalizedMessage(LocalizedMessage),
}

/// What an `ErrorDetail` stands for.
pub enum ErrorDetailView {
    RetryInfo(Option<nat>),
    DebugInfo(DebugInfoView),
    QuotaFailure(Seq<QuotaViolationView>),
    ErrorInfo(ErrorInfoView),
    PreconditionFailure(Seq<PreconditionViolationView>),
    BadRequest(Seq<FieldViolationView>),
    RequestInfo(RequestInfoView),
    ResourceInfo(ResourceInfoView),
    Help(Seq<HelpLinkView>),
    LocalizedMessage(LocalizedMessageView),
}

impl View for ErrorDetail {
    type V = ErrorDetailView;

    open spec fn view(&self) -> ErrorDetailView {
        match self {
            ErrorDetail::RetryInfo(detail) => ErrorDetailView::RetryInfo(detail@),
            ErrorDetail::DebugInfo(detail) => ErrorDetailView::DebugInfo(detail@),
            ErrorDetail::QuotaFailure(detail) => ErrorDetailView::QuotaFailure(detail@),
            ErrorDetail::ErrorInfo(detail) => ErrorDetailView::ErrorInfo(detail@),
            ErrorDetail::PreconditionFailure(detail) => ErrorDetailView::PreconditionFailure(
                detail@,
            ),
            ErrorDetail::BadRequest(detail) => ErrorDetailView::BadRequest(detail@),
            ErrorDetail::RequestInfo(detail) => ErrorDetailView::RequestInfo(detail@),
            ErrorDetail::ResourceInfo(detail) => ErrorDetailView::ResourceInfo(detail@),
            ErrorDetail::Help(detail) => ErrorDetailView::Help(detail@),
            ErrorDetail::LocalizedMessage(detail) => ErrorDetailView::LocalizedMessage(detail@),
        }
    }
}

impl ErrorDetailView {
    /// The kind of a detail.
    pub open spec fn kind(self) -> Kind {
        match self {
            ErrorDetailView::RetryInfo(_) => Kind::RetryInfo,
            ErrorDetailView::DebugInfo(_) => Kind::DebugInfo,
            ErrorDetailView::QuotaFailure(_) => Kind::QuotaFailure,
            ErrorDetailView::ErrorInfo(_) => Kind::ErrorInfo,
            ErrorDetailView::PreconditionFailure(_) => Kind::PreconditionFailure,
            ErrorDetailView::BadRequest(_) => Kind::BadRequest,
            ErrorDetailView::RequestInfo(_) => Kind::RequestInfo,
            ErrorDetailView::ResourceInfo(_) => Kind::ResourceInfo,
            ErrorDetailView::Help(_) => Kind::Help,
            ErrorDetailView::LocalizedMessage(_) => Kind::LocalizedMessage,
        }
    }

    /// The detail as it is encoded: a delay above the longest one is cut
    /// down to it, every other detail is kept as it is.
    pub open spec fn settled(self) -> ErrorDetailView {
        match self {
            ErrorDetailView::RetryInfo(delay) => ErrorDetailView::RetryInfo(
                RetryInfo::settled(delay),
            ),
            _ => self,
        }
    }
}

/// Whether `blob` is a blob of `detail`: it is tagged with the type
/// identifier of the detail's kind, and its payload are bytes of the detail.
pub open spec fn is_blob_of(detail: ErrorDetailView, blob: AnyView) -> bool {
    blob.type_url == url_of(detail.kind()) && match detail {
        ErrorDetailView::RetryInfo(v) => blob.value == RetryInfo::encoded(v),
        ErrorDetailView::DebugInfo(v) => blob.value == DebugInfo::encoded(v),
        ErrorDetailView::QuotaFailure(v) => blob.value == QuotaFailure::encoded(v),
        ErrorDetailView::ErrorInfo(v) => ErrorInfo::encodes(v, blob.value),
        ErrorDetailView::PreconditionFailure(v) => blob.value == PreconditionFailure::encoded(v),
        ErrorDetailView::BadRequest(v) => blob.value == BadRequest::encoded(v),
        ErrorDetailView::RequestInfo(v) => blob.value == RequestInfo::encoded(v),
        ErrorDetailView::ResourceInfo(v) => blob.value == ResourceInfo::encoded(v),
        ErrorDetailView::Help(v) => blob.value == Help::encoded(v),
        ErrorDetailView::LocalizedMessage(v) => blob.value == LocalizedMessage::encoded(v),
    }
}

/// The detail of the given kind that a payload decodes to.
pub open spec fn read_detail(kind: Kind, bytes: Seq<u8>) -> Option<ErrorDetailView> {
    match kind {
        Kind::RetryInfo => match RetryInfo::read(bytes) {
            Some(v) => Some(ErrorDetailView::RetryInfo(v)),
            None => None,
        },
        Kind::DebugInfo => match decoded::<DebugInfo>(bytes) {
            Some(v) => Some(ErrorDetailView::DebugInfo(v)),
            None => None,
        },
        Kind::QuotaFailure => match decoded::<QuotaFailure>(bytes) {
            Some(v) => Some(ErrorDetailView::QuotaFailure(v)),
            None => None,
        },
        Kind::ErrorInfo => match ErrorInfo::read(bytes) {
            Some(v) => Some(ErrorDetailView::ErrorInfo(v)),
            None => None,
        },
        Kind::PreconditionFailure => match decoded::<PreconditionFailure>(bytes) {
            Some(v) => Some(ErrorDetailView::PreconditionFailure(v)),
            None => None,
        },
        Kind::BadRequest => match decoded::<BadRequest>(bytes) {
            Some(v) => Some(ErrorDetailView::BadRequest(v)),
            None => None,
        },
        Kind::RequestInfo => match decoded::<RequestInfo>(bytes) {
            Some(v) => Some(ErrorDetailView::RequestInfo(v)),
            None => None,
        },
        Kind::ResourceInfo => match decoded::<ResourceInfo>(bytes) {
            Some(v) => Some(ErrorDetailView::ResourceInfo(v)),
            None => None,
        },
        Kind::Help => match decoded::<Help>(bytes) {
            Some(v) => Some(ErrorDetailView::Help(v)),
            None => None,
        },
        Kind::LocalizedMessage => match decoded::<LocalizedMessage>(bytes) {
            Some(v) => Some(ErrorDetailView::LocalizedMessage(v)),
            None => None,
        },
    }
}

/// Decoding undoes encoding: a blob of a detail, with a payload of fewer
/// than 2^64 bytes, names the detail's kind and decodes to the detail as it
/// is encoded.
pub proof fn lemma_read_blob(detail: ErrorDetailView, blob: AnyView)
    requires
        is_blob_of(detail, blob),
        blob.value.len() <= u64::MAX,
    ensures
        kind_of_url(blob.type_url) == Some(detail.kind()),
        read_detail(detail.kind(), blob.value) == Some(detail.settled()),
{
    lemma_kind_of_url(detail.kind());
    match detail {
        ErrorDetailView::RetryInfo(v) => {
            RetryInfo::lemma_round_trip(v);
        },
        ErrorDetailView::DebugInfo(v) => {
            DebugInfo::lemma_round_trip(v);
        },
        ErrorDetailView::QuotaFailure(v) => {
            QuotaFailure::lemma_round_trip(v);
        },
        ErrorDetailView::ErrorInfo(v) => {
            ErrorInfo::lemma_round_trip(v, blob.value);
        },
        ErrorDetailView::PreconditionFailure(v) => {
            PreconditionFailure::lemma_round_trip(v);
        },
        ErrorDetailView::BadRequest(v) => {
            BadRequest::lemma_round_trip(v);
        },
        ErrorDetailView::RequestInfo(v) => {
            RequestInfo::lemma_round_trip(v);
        },
        ErrorDetailView::ResourceInfo(v) => {
            ResourceInfo::lemma_round_trip(v);
        },
        ErrorDetailView::Help(v) => {
            Help::lemma_round_trip(v);
        },
        ErrorDetailView::LocalizedMessage(v) => {
            LocalizedMessage::lemma_round_trip(v);
        },
    }
}

impl ErrorDetail {
    /// The kind of this detail.
    pub fn kind(&self) -> (kind: Kind)
        ensures
            kind == self@.kind(),
    {
        match self {
            ErrorDetail::RetryInfo(_) => Kind::RetryInfo,
            ErrorDetail::DebugInfo(_) => Kind::DebugInfo,
            ErrorDetail::QuotaFailure(_) => Kind::QuotaFailure,
            ErrorDetail::ErrorInfo(_) => Kind::ErrorInfo,
            ErrorDetail::PreconditionFailure(_) => Kind::PreconditionFailure,
            ErrorDetail::BadRequest(_) => Kind::BadRequest,
            ErrorDetail::RequestInfo(_) => Kind::RequestInfo,
            ErrorDetail::ResourceInfo(_) => Kind::ResourceInfo,
            ErrorDetail::Help(_) => Kind::Help,
            ErrorDetail::LocalizedMessage(_) => Kind::LocalizedMessage,
        }
    }

    /// The blob of this detail. Its payload decodes to the detail as it is
    /// encoded.
    pub fn to_any(&self) -> (any: Any)
        ensures
            is_blob_of(self@, any.model()),
            read_detail(self@.kind(), any.value@) == Some(self@.settled()),
    {
        match self {
            ErrorDetail::RetryInfo(detail) => detail.to_any(),
            ErrorDetail::DebugInfo(detail) => detail.to_any(),
            ErrorDetail::QuotaFailure(detail) => detail.to_any(),
            ErrorDetail::ErrorInfo(detail) => detail.to_any(),
            ErrorDetail::PreconditionFailure(detail) => detail.to_any(),
            ErrorDetail::BadRequest(detail) => detail.to_any(),
            ErrorDetail::RequestInfo(detail) => detail.to_any(),
            ErrorDetail::ResourceInfo(detail) => detail.to_any(),
            ErrorDetail::Help(detail) => detail.to_any(),
            ErrorDetail::LocalizedMessage(detail) => detail.to_any(),
        }
    }

    /// The blob of this detail, as `to_any` gives it. It never fails.
    pub fn into_any(self) -> (r: Result<Any, EncodeFailure>)
        ensures
            r matches Ok(any) && is_blob_of(self@, any.model()) && read_detail(
                self@.kind(),
                any.value@,
            ) == Some(self@.settled()),
    {
        Ok(self.to_any())
    }

    /// The detail of the given kind that a payload decodes to.
    pub fn from_bytes(kind: Kind, payload: &[u8]) -> (r: Result<Self, DecodeFailure>)
        ensures
            match r {
                Ok(detail) => read_detail(kind, payload@) == Some(detail@),
                Err(_) => read_detail(kind, payload@) is None,
            },
    {
        match kind {
            Kind::RetryInfo => match RetryInfo::from_bytes(payload) {
                Ok(detail) => Ok(ErrorDetail::RetryInfo(detail)),
                Err(e) => Err(e),
            },
            Kind::DebugInfo => match decode::<DebugInfo>(payload) {
                Ok(detail) => Ok(ErrorDetail::DebugInfo(detail)),
                Err(e) => Err(e),
            },
            Kind::QuotaFailure => match decode::<QuotaFailure>(payload) {
                Ok(detail) => Ok(ErrorDetail::QuotaFailure(detail)),
                Err(e) => Err(e),
            },
            Kind::ErrorInfo => match ErrorInfo::from_bytes(payload) {
                Ok(detail) => Ok(ErrorDetail::ErrorInfo(detail)),
                Err(e) => Err(e),
            },
            Kind::PreconditionFailure => match decode::<PreconditionFailure>(payload) {
                Ok(detail) => Ok(ErrorDetail::PreconditionFailure(detail)),
                Err(e) => Err(e),
            },
            Kind::BadRequest => match decode::<BadRequest>(payload) {
                Ok(detail) => Ok(ErrorDetail::BadRequest(detail)),
                Err(e) => Err(e),
            },
            Kind::RequestInfo => match decode::<RequestInfo>(payload) {
                Ok(detail) => Ok(ErrorDetail::RequestInfo(detail)),
                Err(e) => Err(e),
            },
            Kind::ResourceInfo => match decode::<ResourceInfo>(payload) {
                Ok(detail) => Ok(ErrorDetail::ResourceInfo(detail)),
                Err(e) => Err(e),
            },
            Kind::Help => match decode::<Help>(payload) {
                Ok(detail) => Ok(ErrorDetail::Help(detail)),
                Err(e) => Err(e),
            },
            Kind::LocalizedMessage => match decode::<LocalizedMessage>(payload) {
                Ok(detail) => Ok(ErrorDetail::LocalizedMessage(detail)),
                Err(e) => Err(e),
            },
        }
    }
}

impl From<RetryInfo> for ErrorDetail {
    fn from(err_detail: RetryInfo) -> (detail: Self) {
        ErrorDetail::RetryInfo(err_detail)
    }
}

impl vstd::std_specs::convert::FromSpecImpl<RetryInfo> for ErrorDetail {
    open spec fn obeys_from_spec() -> bool {
        true
    }

    open spec fn from_spec(err_detail: RetryInfo) -> Self {
        ErrorDetail::RetryInfo(err_detail)
    }
}

impl From<DebugInfo> for ErrorDetail {
    fn from(err_detail: DebugInfo) -> (detail: Self) {
        ErrorDetail::DebugInfo(err_detail)
    }
}

impl vstd::std_specs::convert::FromSpecImpl<DebugInfo> for ErrorDetail {
    open spec fn obeys_from_spec() -> bool {
        true
    }

    open spec fn from_spec(err_detail: DebugInfo) -> Self {
        ErrorDetail::DebugInfo(err_detail)
    }
}

impl From<QuotaFailure> for ErrorDetail {
    fn from(err_detail: QuotaFailure) -> (detail: Self) {
        ErrorDetail::QuotaFailure(err_detail)
    }
}

impl vstd::std_specs::convert::FromSpecImpl<QuotaFailure> for ErrorDetail {
    open spec fn obeys_from_spec() -> bool {
        true
    }

    open spec fn from_spec(err_detail: QuotaFailure) -> Self {
        ErrorDetail::QuotaFailure(err_detail)
    }
}

impl From<ErrorInfo> for ErrorDetail {
    fn from(err_detail: ErrorInfo) -> (detail: Self) {
        ErrorDetail::ErrorInfo(err_detail)
    }
}

impl vstd::std_specs::convert::FromSpecImpl<ErrorInfo> for ErrorDetail {
    open spec fn obeys_from_spec() -> bool {
        true
    }

    open spec fn from_spec(err_detail: ErrorInfo) -> Self {
        ErrorDetail::ErrorInfo(err_detail)
    }
}

impl From<PreconditionFailure> for ErrorDetail {
    fn from(err_detail: PreconditionFailure) -> (detail: Self) {
        ErrorDetail::PreconditionFailure(err_detail)
    }
}

impl vstd::std_specs::convert::FromSpecImpl<PreconditionFailure> for ErrorDetail {
    open spec fn obeys_from_spec() -> bool {
        true
    }

    open spec fn from_spec(err_detail: PreconditionFailure) -> Self {
        ErrorDetail::PreconditionFailure(err_detail)
    }
}

impl From<BadRequest> for ErrorDetail {
    fn from(err_detail: BadRequest) -> (detail: Self) {
        ErrorDetail::BadRequest(err_detail)
    }
}

impl vstd::std_specs::convert::FromSpecImpl<BadRequest> for ErrorDetail {
    open spec fn obeys_from_spec() -> bool {
        true
    }

    open spec fn from_spec(err_detail: BadRequest) -> Self {
        ErrorDetail::BadRequest(err_detail)
    }
}

impl From<RequestInfo> for ErrorDetail {
    fn from(err_detail: RequestInfo) -> (detail: Self) {
        ErrorDetail::RequestInfo(err_detail)
    }
}

impl vstd::std_specs::convert::FromSpecImpl<RequestInfo> for ErrorDetail {
    open spec fn obeys_from_spec() -> bool {
        true
    }

    open spec fn from_spec(err_detail: RequestInfo) -> Self {
        ErrorDetail::RequestInfo(err_detail)
    }
}

impl From<ResourceInfo> for ErrorDetail {
    fn from(err_detail: ResourceInfo) -> (detail: Self) {
        ErrorDetail::ResourceInfo(err_detail)
    }
}

impl vstd::std_specs::convert::FromSpecImpl<ResourceInfo> for ErrorDetail {
    open spec fn obeys_from_spec() -> bool {
        true
    }

    open spec fn from_spec(err_detail: ResourceInfo) -> Self {
        ErrorDetail::ResourceInfo(err_detail)
    }
}

impl From<Help> for ErrorDetail {
    fn from(err_detail: Help) -> (detail: Self) {
        ErrorDetail::Help(err_detail)
    }
}

impl vstd::std_specs::convert::FromSpecImpl<Help> for ErrorDetail {
    open spec fn obeys_from_spec() -> bool {
        true
    }

    open spec fn from_spec(err_detail: Help) -> Self {
        ErrorDetail::Help(err_detail)
    }
}

impl From<LocalizedMessage> for ErrorDetail {
    fn from(err_detail: LocalizedMessage) -> (detail: Self) {
        ErrorDetail::LocalizedMessage(err_detail)
    }
}

impl vstd::std_specs::convert::FromSpecImpl<LocalizedMessage> for ErrorDetail {
    open spec fn obeys_from_spec() -> bool {
        true
    }

    open spec fn from_spec(err_detail: LocalizedMessage) -> Self {
        ErrorDetail::LocalizedMessage(err_detail)
    }
}

/// What the details of a list stand for.
pub open spec fn detail_views(details: Seq<ErrorDetail>) -> Seq<ErrorDetailView> {
    details.map_values(|detail: ErrorDetail| detail@)
}

/// The details as they are encoded, each one settled.
pub open spec fn settled_all(details: Seq<ErrorDetailView>) -> Seq<ErrorDetailView> {
    details.map_values(|detail: ErrorDetailView| detail.settled())
}

/// Whether `blobs` are blobs of `details`, one for one and in order.
pub open spec fn are_blobs_of(details: Seq<ErrorDetailView>, blobs: Seq<AnyView>) -> bool {
    &&& blobs.len() == details.len()
    &&& forall|i: int| 0 <= i < details.len() ==> is_blob_of(details[i], #[trigger] blobs[i])
}

/// The details that blobs decode to, in order: a blob of an unknown kind is
/// passed over, and a malformed blob of a known kind makes the whole list
/// fail.
pub open spec fn read_details(blobs: Seq<AnyView>) -> Option<Seq<ErrorDetailView>>
    decreases blobs.len(),
{
    if blobs.len() == 0 {
        Some(Seq::empty())
    } else {
        match read_details(blobs.drop_last()) {
            Some(details) => match kind_of_url(blobs.last().type_url) {
                Some(kind) => match read_detail(kind, blobs.last().value) {
                    Some(detail) => Some(details.push(detail)),
                    None => None,
                },
                None => Some(details),
            },
            None => None,
        }
    }
}

/// Whether each of `blobs` names the kind of the detail at its place in
/// `details` and decodes to that detail as it is encoded.
pub open spec fn decode_to(blobs: Seq<AnyView>, details: Seq<ErrorDetailView>) -> bool {
    &&& blobs.len() == details.len()
    &&& forall|i: int|
        0 <= i < details.len() ==> kind_of_url((#[trigger] blobs[i]).type_url) == Some(
            details[i].kind(),
        ) && read_detail(details[i].kind(), blobs[i].value) == Some(details[i].settled())
}

/// Blobs that decode one by one decode as a list.
pub proof fn lemma_read_each(details: Seq<ErrorDetailView>, blobs: Seq<AnyView>)
    requires
        decode_to(blobs, details),
    ensures
        read_details(blobs) == Some(settled_all(details)),
    decreases blobs.len(),
{
    if blobs.len() == 0 {
        assert(settled_all(details) =~= Seq::empty());
    } else {
        let n = blobs.len() - 1;
        assert(kind_of_url(blobs[n].type_url) == Some(details[n].kind()));
        assert(decode_to(blobs.drop_last(), details.drop_last())) by {
            assert forall|i: int| 0 <= i < details.drop_last().len() implies kind_of_url(
                (#[trigger] blobs.drop_last()[i]).type_url,
            ) == Some(details.drop_last()[i].kind()) && read_detail(
                details.drop_last()[i].kind(),
                blobs.drop_last()[i].value,
            ) == Some(details.drop_last()[i].settled()) by {
                assert(kind_of_url(blobs[i].type_url) == Some(details[i].kind()));
            }
        }
        lemma_read_each(details.drop_last(), blobs.drop_last());
        assert(settled_all(details) =~= settled_all(details.drop_last()).push(
            details[n].settled(),
        ));
    }
}

/// Decoding undoes encoding, for lists: blobs of details, each with a
/// payload of fewer than 2^64 bytes, decode to the details as they are
/// encoded.
pub proof fn lemma_read_blobs(details: Seq<ErrorDetailView>, blobs: Seq<AnyView>)
    requires
        are_blobs_of(details, blobs),
        forall|i: int| 0 <= i < blobs.len() ==> (#[trigger] blobs[i]).value.len() <= u64::MAX,
    ensures
        read_details(blobs) == Some(settled_all(details)),
{
    assert forall|i: int| 0 <= i < details.len() implies kind_of_url(
        (#[trigger] blobs[i]).type_url,
    ) == Some(details[i].kind()) && read_detail(details[i].kind(), blobs[i].value) == Some(
        details[i].settled(),
    ) by {
        assert(is_blob_of(details[i], blobs[i]));
        lemma_read_blob(details[i], blobs[i]);
    }
    lemma_read_each(details, blobs);
}

/// A blob of an unknown kind changes nothing in what a list of blobs
/// decodes to.
pub proof fn lemma_unknown_kind_is_skipped(blobs: Seq<AnyView>, unknown: AnyView, at: int)
    requires
        0 <= at <= blobs.len(),
        kind_of_url(unknown.type_url) is None,
    ensures
        read_details(blobs.insert(at, unknown)) == read_details(blobs),
    decreases blobs.len() - at,
{
    let longer = blobs.insert(at, unknown);
    if at == blobs.len() {
        assert(longer.drop_last() =~= blobs);
    } else {
        assert(longer.drop_last() =~= blobs.drop_last().insert(at, unknown));
        assert(longer.last() == blobs.last());
        lemma_unknown_kind_is_skipped(blobs.drop_last(), unknown, at);
    }
}

/// The blobs of the details of a list, one for one and in order.
pub fn details_to_blobs(details: &Vec<ErrorDetail>) -> (blobs: Vec<Any>)
    ensures
        are_blobs_of(detail_views(details@), models::<Any>(blobs@)),
        read_details(models::<Any>(blobs@)) == Some(settled_all(detail_views(details@))),
{
    let mut blobs: Vec<Any> = Vec::new();
    let mut i: usize = 0;
    while i < details.len()
        invariant
            i <= details.len(),
            blobs@.len() == i,
            forall|j: int|
                0 <= j < i ==> is_blob_of(details@[j]@, (#[trigger] blobs@[j]).model())
                    && read_detail(details@[j]@.kind(), blobs@[j].value@) == Some(
                    details@[j]@.settled(),
                ),
        decreases details.len() - i,
    {
        let any = details[i].to_any();
        blobs.push(any);
        i += 1;
    }
    proof {
        let views = detail_views(details@);
        let made = models::<Any>(blobs@);
        assert forall|j: int| 0 <= j < views.len() implies is_blob_of(
            views[j],
            #[trigger] made[j],
        ) by {
            assert(is_blob_of(details@[j]@, blobs@[j].model()));
        }
        assert forall|j: int| 0 <= j < views.len() implies kind_of_url(
            (#[trigger] made[j]).type_url,
        ) == Some(views[j].kind()) && read_detail(views[j].kind(), made[j].value) == Some(
            views[j].settled(),
        ) by {
            assert(is_blob_of(details@[j]@, blobs@[j].model()));
            lemma_kind_of_url(views[j].kind());
        }
        lemma_read_each(views, made);
    }
    blobs
}

/// The details that blobs decode to, in order. A blob of an unknown kind is
/// passed over; a malformed blob of a known kind makes the whole list fail.
pub fn details_from_blobs(blobs: &Vec<Any>) -> (r: Result<Vec<ErrorDetail>, DecodeFailure>)
    ensures
        match r {
            Ok(details) => read_details(models::<Any>(blobs@)) == Some(detail_views(details@)),
            Err(_) => read_details(models::<Any>(blobs@)) is None,
        },
{
    let ghost all = models::<Any>(blobs@);
    let mut details: Vec<ErrorDetail> = Vec::new();
    let mut i: usize = 0;
    assert(all.take(0) =~= Seq::empty());
    assert(detail_views(details@) =~= Seq::empty());
    while i < blobs.len()
        invariant
            i <= blobs.len(),
            all == models::<Any>(blobs@),
            read_details(all.take(i as int)) == Some(detail_views(details@)),
        decreases blobs.len() - i,
    {
        proof {
            let done = all.take(i + 1);
            assert(done.drop_last() =~= all.take(i as int));
            assert(done.last() == blobs@[i as int].model());
            lemma_read_details_fails_on(all, i + 1);
        }
        let ghost before = detail_views(details@);
        match kind_of(blobs[i].type_url.as_str()) {
            Some(kind) => {
                let detail = ErrorDetail::from_bytes(kind, blobs[i].value.as_slice())?;
                details.push(detail);
                assert(detail_views(details@) =~= before.push(detail@));
            },
            None => {},
        }
        i += 1;
    }
    assert(all.take(blobs.len() as int) =~= all);
    Ok(details)
}

/// Where the front of a list of blobs does not decode, the list does not
/// decode.
pub proof fn lemma_read_details_fails_on(blobs: Seq<AnyView>, n: int)
    requires
        0 <= n <= blobs.len(),
    ensures
        read_details(blobs.take(n)) is None ==> read_details(blobs) is None,
    decreases blobs.len() - n,
{
    if n < blobs.len() {
        assert(blobs.take(n + 1).drop_last() =~= blobs.take(n));
        lemma_read_details_fails_on(blobs, n + 1);
    } else {
        assert(blobs.take(n) =~= blobs);
    }
}

} // verus!
