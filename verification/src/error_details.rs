//! The set of details: one slot for each of the ten kinds.

use vstd::prelude::*;
use std::collections::HashMap;
use std::time::Duration;
use crate::duration::duration_nanos;
use crate::error_details_vec::detail_views;
use crate::error_details_vec::settled_all;
use crate::error_details_vec::ErrorDetail;
use crate::error_details_vec::ErrorDetailView;
use crate::message::models;
use crate::message::texts;
use crate::std_messages::bad_request::FieldViolationView;
use crate::std_messages::debug_info::DebugInfoView;
use crate::std_messages::error_info::metadata_entries;
use crate::std_messages::error_info::ErrorInfoView;
use crate::std_messages::help::HelpLinkView;
use crate::std_messages::loc_message::LocalizedMessageView;
use crate::std_messages::prec_failure::PreconditionViolationView;
use crate::std_messages::quota_failure::QuotaViolationView;
use crate::std_messages::request_info::RequestInfoView;
use crate::std_messages::resource_info::ResourceInfoView;
use crate::std_messages::BadRequest;
use crate::std_messages::DebugInfo;
use crate::std_messages::ErrorInfo;
use crate::std_messages::FieldViolation;
use crate::std_messages::Help;
use crate::std_messages::HelpLink;
use crate::std_messages::LocalizedMessage;
use crate::std_messages::PreconditionFailure;
use crate::std_messages::PreconditionViolation;
use crate::std_messages::QuotaFailure;
use crate::std_messages::QuotaViolation;
use crate::std_messages::RequestInfo;
use crate::std_messages::ResourceInfo;
use crate::std_messages::RetryInfo;

verus! {

/// Details of an error, at most one of each kind.
#[derive(Clone, Debug)]
pub struct ErrorDetails {
    /// When clients can retry a failed request.
    pub retry_info: Option<RetryInfo>,
    /// Additional debugging information.
    pub debug_info: Option<DebugInfo>,
    /// How a quota check failed.
    pub quota_failure: Option<QuotaFailure>,
    /// The cause of the error, with structured details.
    pub error_info: Option<ErrorInfo>,
    /// Which preconditions have failed.
    pub precondition_failure: Option<PreconditionFailure>,
    /// Violations in a client request.
    pub bad_request: Option<BadRequest>,
    /// Metadata about the request that failed.
    pub request_info: Option<RequestInfo>,
    /// The resource that is being accessed.
    pub resource_info: Option<ResourceInfo>,
    /// Links to documentation.
    pub help: Option<Help>,
    /// An error message in a given locale.
    pub localized_message: Option<LocalizedMessage>,
}

/// What an `ErrorDetails` stands for.
pub struct ErrorDetailsView {
    pub retry_info: Option<Option<nat>>,
    pub debug_info: Option<DebugInfoView>,
    pub quota_failure: Option<Seq<QuotaViolationView>>,
    pub error_info: Option<ErrorInfoView>,
    pub precondition_failure: Option<Seq<PreconditionViolationView>>,
    pub bad_request: Option<Seq<FieldViolationView>>,
    pub request_info: Option<RequestInfoView>,
    pub resource_info: Option<ResourceInfoView>,
    pub help: Option<Seq<HelpLinkView>>,
    pub localized_message: Option<LocalizedMessageView>,
}

impl View for ErrorDetails {
    type V = ErrorDetailsView;

    open spec fn view(&self) -> ErrorDetailsView {
        ErrorDetailsView {
            retry_info: match self.retry_info {
                Some(detail) => Some(detail@),
                None => None,
            },
            debug_info: match self.debug_info {
                Some(detail) => Some(detail@),
                None => None,
            },
            quota_failure: match self.quota_failure {
                Some(detail) => Some(detail@),
                None => None,
            },
            error_info: match self.error_info {
                Some(detail) => Some(detail@),
                None => None,
            },
            precondition_failure: match self.precondition_failure {
                Some(detail) => Some(detail@),
                None => None,
            },
            bad_request: match self.bad_request {
                Some(detail) => Some(detail@),
                None => None,
            },
            request_info: match self.request_info {
                Some(detail) => Some(detail@),
                None => None,
            },
            resource_info: match self.resource_info {
                Some(detail) => Some(detail@),
                None => None,
            },
            help: match self.help {
                Some(detail) => Some(detail@),
                None => None,
            },
            localized_message: match self.localized_message {
                Some(detail) => Some(detail@),
                None => None,
            },
        }
    }
}

/// The delay of a span of time that may be missing, in nanoseconds.
pub open spec fn delay_view(retry_delay: Option<Duration>) -> Option<nat> {
    match retry_delay {
        Some(delay) => Some(duration_nanos(delay)),
        None => None,
    }
}

/// The list with one more item at its end, or the list of that item alone
/// where there is no list yet.
pub open spec fn appended<A>(slot: Option<Seq<A>>, item: A) -> Seq<A> {
    match slot {
        Some(list) => list.push(item),
        None => seq![item],
    }
}

/// Whether a slot is filled and holds at least one item.
pub open spec fn has_item<A>(slot: Option<Seq<A>>) -> bool {
    slot matches Some(list) && list.len() > 0
}

impl ErrorDetailsView {
    /// The set with every slot empty.
    pub open spec fn empty() -> ErrorDetailsView {
        ErrorDetailsView {
            retry_info: None,
            debug_info: None,
            quota_failure: None,
            error_info: None,
            precondition_failure: None,
            bad_request: None,
            request_info: None,
            resource_info: None,
            help: None,
            localized_message: None,
        }
    }

    /// The set with `detail` in the slot of its kind, in place of what was
    /// there.
    pub open spec fn put(self, detail: ErrorDetailView) -> ErrorDetailsView {
        match detail {
            ErrorDetailView::RetryInfo(v) => ErrorDetailsView { retry_info: Some(v), ..self },
            ErrorDetailView::DebugInfo(v) => ErrorDetailsView { debug_info: Some(v), ..self },
            ErrorDetailView::QuotaFailure(v) => ErrorDetailsView { quota_failure: Some(v), ..self },
            ErrorDetailView::ErrorInfo(v) => ErrorDetailsView { error_info: Some(v), ..self },
            ErrorDetailView::PreconditionFailure(v) => ErrorDetailsView {
                precondition_failure: Some(v),
                ..self
            },
            ErrorDetailView::BadRequest(v) => ErrorDetailsView { bad_request: Some(v), ..self },
            ErrorDetailView::RequestInfo(v) => ErrorDetailsView { request_info: Some(v), ..self },
            ErrorDetailView::ResourceInfo(v) => ErrorDetailsView { resource_info: Some(v), ..self },
            ErrorDetailView::Help(v) => ErrorDetailsView { help: Some(v), ..self },
            ErrorDetailView::LocalizedMessage(v) => ErrorDetailsView {
                localized_message: Some(v),
                ..self
            },
        }
    }

    /// The detail in the slot at place `i` of the catalog, counted from 0.
    pub open spec fn slot(self, i: int) -> Option<ErrorDetailView> {
        if i == 0 {
            match self.retry_info {
                Some(v) => Some(ErrorDetailView::RetryInfo(v)),
                None => None,
            }
        } else if i == 1 {
            match self.debug_info {
                Some(v) => Some(ErrorDetailView::DebugInfo(v)),
                None => None,
            }
        } else if i == 2 {
            match self.quota_failure {
                Some(v) => Some(ErrorDetailView::QuotaFailure(v)),
                None => None,
            }
        } else if i == 3 {
            match self.error_info {
                Some(v) => Some(ErrorDetailView::ErrorInfo(v)),
                None => None,
            }
        } else if i == 4 {
            match self.precondition_failure {
                Some(v) => Some(ErrorDetailView::PreconditionFailure(v)),
                None => None,
            }
        } else if i == 5 {
            match self.bad_request {
                Some(v) => Some(ErrorDetailView::BadRequest(v)),
                None => None,
            }
        } else if i == 6 {
            match self.request_info {
                Some(v) => Some(ErrorDetailView::RequestInfo(v)),
                None => None,
            }
        } else if i == 7 {
            match self.resource_info {
                Some(v) => Some(ErrorDetailView::ResourceInfo(v)),
                None => None,
            }
        } else if i == 8 {
            match self.help {
                Some(v) => Some(ErrorDetailView::Help(v)),
                None => None,
            }
        } else if i == 9 {
            match self.localized_message {
                Some(v) => Some(ErrorDetailView::LocalizedMessage(v)),
                None => None,
            }
        } else {
            None
        }
    }

    /// The set with only its first `n` slots, the others empty.
    pub open spec fn first_slots(self, n: nat) -> ErrorDetailsView {
        ErrorDetailsView {
            retry_info: if n > 0 {
                self.retry_info
            } else {
                None
            },
            debug_info: if n > 1 {
                self.debug_info
            } else {
                None
            },
            quota_failure: if n > 2 {
                self.quota_failure
            } else {
                None
            },
            error_info: if n > 3 {
                self.error_info
            } else {
                None
            },
            precondition_failure: if n > 4 {
                self.precondition_failure
            } else {
                None
            },
            bad_request: if n > 5 {
                self.bad_request
            } else {
                None
            },
            request_info: if n > 6 {
                self.request_info
            } else {
                None
            },
            resource_info: if n > 7 {
                self.resource_info
            } else {
                None
            },
            help: if n > 8 {
                self.help
            } else {
                None
            },
            localized_message: if n > 9 {
                self.localized_message
            } else {
                None
            },
        }
    }

    /// The details in the first `n` slots, in the order of the catalog.
    pub open spec fn listed_upto(self, n: nat) -> Seq<ErrorDetailView>
        decreases n,
    {
        if n == 0 {
            Seq::empty()
        } else {
            match self.slot(n - 1) {
                Some(detail) => self.listed_upto((n - 1) as nat).push(detail),
                None => self.listed_upto((n - 1) as nat),
            }
        }
    }

    /// The details of the set in the order of the catalog.
    pub open spec fn listed(self) -> Seq<ErrorDetailView> {
        self.listed_upto(10)
    }

    /// The set as it is encoded: a delay above the longest one is cut down
    /// to it, every other detail is kept as it is.
    pub open spec fn settled(self) -> ErrorDetailsView {
        ErrorDetailsView {
            retry_info: match self.retry_info {
                Some(delay) => Some(RetryInfo::settled(delay)),
                None => None,
            },
            ..self
        }
    }
}

/// The set that details make when they are put into `start` one after
/// another: of two details of one kind the later one stays.
pub open spec fn collected_into(
    start: ErrorDetailsView,
    details: Seq<ErrorDetailView>,
) -> ErrorDetailsView {
    details.fold_left(start, |set: ErrorDetailsView, detail: ErrorDetailView| set.put(detail))
}

/// The set that details make when they are put into an empty set one after
/// another.
pub open spec fn collected(details: Seq<ErrorDetailView>) -> ErrorDetailsView {
    collected_into(ErrorDetailsView::empty(), details)
}

/// Collecting undoes listing, slot by slot: the details in the first `n`
/// slots, put into an empty set again, make the set of those slots.
pub proof fn lemma_collected_upto(set: ErrorDetailsView, n: nat)
    requires
        n <= 10,
    ensures
        collected(set.listed_upto(n)) == set.first_slots(n),
    decreases n,
{
    if n > 0 {
        let before = set.listed_upto((n - 1) as nat);
        lemma_collected_upto(set, (n - 1) as nat);
        match set.slot(n - 1) {
            Some(detail) => {
                assert(before.push(detail).drop_last() =~= before);
                assert(set.first_slots((n - 1) as nat).put(detail) == set.first_slots(n));
            },
            None => {
                assert(set.first_slots((n - 1) as nat) == set.first_slots(n));
            },
        }
    }
}

/// Collecting undoes listing: the details of a set, listed in the order of
/// the catalog and put into an empty set again, make the set.
pub proof fn lemma_collected_listed(set: ErrorDetailsView)
    ensures
        collected(set.listed()) == set,
{
    lemma_collected_upto(set, 10);
}

/// Settling a set and listing it is listing it and settling each detail,
/// slot by slot.
pub proof fn lemma_settled_upto(set: ErrorDetailsView, n: nat)
    requires
        n <= 10,
    ensures
        set.settled().listed_upto(n) == settled_all(set.listed_upto(n)),
    decreases n,
{
    if n > 0 {
        let before = set.listed_upto((n - 1) as nat);
        lemma_settled_upto(set, (n - 1) as nat);
        match set.slot(n - 1) {
            Some(detail) => {
                assert(set.settled().slot(n - 1) == Some(detail.settled()));
                assert(settled_all(before.push(detail)) =~= settled_all(before).push(
                    detail.settled(),
                ));
            },
            None => {
                assert(set.settled().slot(n - 1) is None);
            },
        }
    } else {
        assert(settled_all(set.listed_upto(0)) =~= Seq::empty());
    }
}

/// Settling a set and listing it is listing it and settling each detail.
pub proof fn lemma_settled_listed(set: ErrorDetailsView)
    ensures
        set.settled().listed() == settled_all(set.listed()),
{
    lemma_settled_upto(set, 10);
}

/// Adds the detail of a slot, if there is one, to a list.
fn push_slot(details: &mut Vec<ErrorDetail>, slot: Option<ErrorDetail>)
    ensures
        detail_views(final(details)@) == match slot {
            Some(detail) => detail_views(old(details)@).push(detail@),
            None => detail_views(old(details)@),
        },
{
    match slot {
        Some(detail) => {
            details.push(detail);
            assert(detail_views(details@) =~= detail_views(old(details)@).push(detail@));
        },
        None => {},
    }
}

impl ErrorDetails {
    /// A set with every slot empty.
    pub fn new() -> (r: Self)
        ensures
            r@ == ErrorDetailsView::empty(),
    {
        ErrorDetails {
            retry_info: None,
            debug_info: None,
            quota_failure: None,
            error_info: None,
            precondition_failure: None,
            bad_request: None,
            request_info: None,
            resource_info: None,
            help: None,
            localized_message: None,
        }
    }

    /// A set that holds only a delay, cut down to the longest one.
    pub fn with_retry_info(retry_delay: Option<Duration>) -> (r: Self)
        ensures
            r@ == ErrorDetailsView::empty().put(
                ErrorDetailView::RetryInfo(RetryInfo::settled(delay_view(retry_delay))),
            ),
    {
        ErrorDetails { retry_info: Some(RetryInfo::new(retry_delay)), ..ErrorDetails::new() }
    }

    /// A set that holds only stack entries and a text.
    pub fn with_debug_info(stack_entries: Vec<String>, detail: &str) -> (r: Self)
        ensures
            r@ == ErrorDetailsView::empty().put(
                ErrorDetailView::DebugInfo(
                    DebugInfoView { stack_entries: texts(stack_entries@), detail: detail@ },
                ),
            ),
    {
        ErrorDetails {
            debug_info: Some(DebugInfo::new(stack_entries, detail)),
            ..ErrorDetails::new()
        }
    }

    /// A set that holds only quota violations.
    pub fn with_quota_failure(violations: Vec<QuotaViolation>) -> (r: Self)
        ensures
            r@ == ErrorDetailsView::empty().put(
                ErrorDetailView::QuotaFailure(models::<QuotaViolation>(violations@)),
            ),
    {
        ErrorDetails { quota_failure: Some(QuotaFailure::new(violations)), ..ErrorDetails::new() }
    }

    /// A set that holds only one quota violation.
    pub fn with_quota_failure_violation(subject: &str, description: &str) -> (r: Self)
        ensures
            r@ == ErrorDetailsView::empty().put(
                ErrorDetailView::QuotaFailure(
                    seq![QuotaViolationView { subject: subject@, description: description@ }],
                ),
            ),
    {
        ErrorDetails {
            quota_failure: Some(QuotaFailure::with_violation(subject, description)),
            ..ErrorDetails::new()
        }
    }

    /// A set that holds only a reason, a domain and metadata.
    pub fn with_error_info(
        reason: &str,
        domain: &str,
        metadata: HashMap<String,
        String>,
    ) -> (r: Self)
        ensures
            r@ == ErrorDetailsView::empty().put(
                ErrorDetailView::ErrorInfo(ErrorInfoView {
                    reason: reason@,
                    domain: domain@,
                    metadata: metadata_entries(metadata),
                }),
            ),
    {
        ErrorDetails {
            error_info: Some(ErrorInfo::new(reason, domain, metadata)),
            ..ErrorDetails::new()
        }
    }

    /// A set that holds only precondition violations.
    pub fn with_precondition_failure(violations: Vec<PreconditionViolation>) -> (r: Self)
        ensures
            r@ == ErrorDetailsView::empty().put(
                ErrorDetailView::PreconditionFailure(models::<PreconditionViolation>(violations@)),
            ),
    {
        ErrorDetails {
            precondition_failure: Some(PreconditionFailure::new(violations)),
            ..ErrorDetails::new()
        }
    }

    /// A set that holds only one precondition violation.
    pub fn with_precondition_failure_violation(
        violation_type: &str,
        subject: &str,
        description: &str,
    ) -> (r: Self)
        ensures
            r@ == ErrorDetailsView::empty().put(
                ErrorDetailView::PreconditionFailure(
                    seq![PreconditionViolationView {
                        violation_type: violation_type@,
                        subject: subject@,
                        description: description@,
                    }],
                ),
            ),
    {
        ErrorDetails {
            precondition_failure: Some(
                PreconditionFailure::with_violation(violation_type, subject, description),
            ),
            ..ErrorDetails::new()
        }
    }

    /// A set that holds only field violations.
    pub fn with_bad_request(field_violations: Vec<FieldViolation>) -> (r: Self)
        ensures
            r@ == ErrorDetailsView::empty().put(
                ErrorDetailView::BadRequest(models::<FieldViolation>(field_violations@)),
            ),
    {
        ErrorDetails { bad_request: Some(BadRequest::new(field_violations)), ..ErrorDetails::new() }
    }

    /// A set that holds only one field violation.
    pub fn with_bad_request_violation(field: &str, description: &str) -> (r: Self)
        ensures
            r@ == ErrorDetailsView::empty().put(
                ErrorDetailView::BadRequest(
                    seq![FieldViolationView { field: field@, description: description@ }],
                ),
            ),
    {
        ErrorDetails {
            bad_request: Some(BadRequest::with_violation(field, description)),
            ..ErrorDetails::new()
        }
    }

    /// A set that holds only a request identifier and serving data.
    pub fn with_request_info(request_id: &str, serving_data: &str) -> (r: Self)
        ensures
            r@ == ErrorDetailsView::empty().put(
                ErrorDetailView::RequestInfo(
                    RequestInfoView { request_id: request_id@, serving_data: serving_data@ },
                ),
            ),
    {
        ErrorDetails {
            request_info: Some(RequestInfo::new(request_id, serving_data)),
            ..ErrorDetails::new()
        }
    }

    /// A set that holds only the four texts of a resource.
    pub fn with_resource_info(
        resource_type: &str,
        resource_name: &str,
        owner: &str,
        description: &str,
    ) -> (r: Self)
        ensures
            r@ == ErrorDetailsView::empty().put(
                ErrorDetailView::ResourceInfo(ResourceInfoView {
                    resource_type: resource_type@,
                    resource_name: resource_name@,
                    owner: owner@,
                    description: description@,
                }),
            ),
    {
        ErrorDetails {
            resource_info: Some(
                ResourceInfo::new(resource_type, resource_name, owner, description),
            ),
            ..ErrorDetails::new()
        }
    }

    /// A set that holds only links.
    pub fn with_help(links: Vec<HelpLink>) -> (r: Self)
        ensures
            r@ == ErrorDetailsView::empty().put(
                ErrorDetailView::Help(models::<HelpLink>(links@)),
            ),
    {
        ErrorDetails { help: Some(Help::new(links)), ..ErrorDetails::new() }
    }

    /// A set that holds only one link.
    pub fn with_help_link(description: &str, url: &str) -> (r: Self)
        ensures
            r@ == ErrorDetailsView::empty().put(
                ErrorDetailView::Help(
                    seq![HelpLinkView { description: description@, url: url@ }],
                ),
            ),
    {
        ErrorDetails { help: Some(Help::with_link(description, url)), ..ErrorDetails::new() }
    }

    /// A set that holds only a locale and a message.
    pub fn with_localized_message(locale: &str, message: &str) -> (r: Self)
        ensures
            r@ == ErrorDetailsView::empty().put(
                ErrorDetailView::LocalizedMessage(
                    LocalizedMessageView { locale: locale@, message: message@ },
                ),
            ),
    {
        ErrorDetails {
            localized_message: Some(LocalizedMessage::new(locale, message)),
            ..ErrorDetails::new()
        }
    }

    /// Fills the slot of this kind, in place of what was there, with
    /// a delay, cut down to the longest one.
    pub fn set_retry_info(&mut self, retry_delay: Option<Duration>) -> (ret: &mut Self)
        ensures
            ret@ == old(self)@.put(
                ErrorDetailView::RetryInfo(RetryInfo::settled(delay_view(retry_delay))),
            ),
            *final(self) == *final(ret),
    {
        self.retry_info = Some(RetryInfo::new(retry_delay));
        self
    }

    /// Fills the slot of this kind, in place of what was there, with
    /// stack entries and a text.
    pub fn set_debug_info(&mut self, stack_entries: Vec<String>, detail: &str) -> (ret: &mut Self)
        ensures
            ret@ == old(self)@.put(
                ErrorDetailView::DebugInfo(
                    DebugInfoView { stack_entries: texts(stack_entries@), detail: detail@ },
                ),
            ),
            *final(self) == *final(ret),
    {
        self.debug_info = Some(DebugInfo::new(stack_entries, detail));
        self
    }

    /// Fills the slot of this kind, in place of what was there, with
    /// quota violations.
    pub fn set_quota_failure(&mut self, violations: Vec<QuotaViolation>) -> (ret: &mut Self)
        ensures
            ret@ == old(self)@.put(
                ErrorDetailView::QuotaFailure(models::<QuotaViolation>(violations@)),
            ),
            *final(self) == *final(ret),
    {
        self.quota_failure = Some(QuotaFailure::new(violations));
        self
    }

    /// Adds one quota violation behind those that are there; where there are
    /// none yet, the slot is filled with that one.
    pub fn add_quota_failure_violation(
        &mut self,
        subject: &str,
        description: &str,
    ) -> (ret: &mut Self)
        ensures
            ret@ == old(self)@.put(
                ErrorDetailView::QuotaFailure(
                    appended(
                        old(self)@.quota_failure,
                        QuotaViolationView { subject: subject@, description: description@ },
                    ),
                ),
            ),
            *final(self) == *final(ret),
    {
        match &mut self.quota_failure {
            Some(quota_failure) => {
                quota_failure.add_violation(subject, description);
            },
            None => {
                self.quota_failure = Some(QuotaFailure::with_violation(subject, description));
            },
        }
        self
    }

    /// Whether the slot is filled and holds at least one quota violation.
    pub fn has_quota_failure_violation(&self) -> (r: bool)
        ensures
            r == has_item(self@.quota_failure),
    {
        match &self.quota_failure {
            Some(quota_failure) => !quota_failure.is_empty(),
            None => false,
        }
    }

    /// Fills the slot of this kind, in place of what was there, with
    /// a reason, a domain and metadata.
    pub fn set_error_info(
        &mut self,
        reason: &str,
        domain: &str,
        metadata: HashMap<String,
        String>,
    ) -> (ret: &mut Self)
        ensures
            ret@ == old(self)@.put(
                ErrorDetailView::ErrorInfo(ErrorInfoView {
                    reason: reason@,
                    domain: domain@,
                    metadata: metadata_entries(metadata),
                }),
            ),
            *final(self) == *final(ret),
    {
        self.error_info = Some(ErrorInfo::new(reason, domain, metadata));
        self
    }

    /// Fills the slot of this kind, in place of what was there, with
    /// precondition violations.
    pub fn set_precondition_failure(
        &mut self,
        violations: Vec<PreconditionViolation>,
    ) -> (ret: &mut Self)
        ensures
            ret@ == old(self)@.put(
                ErrorDetailView::PreconditionFailure(models::<PreconditionViolation>(violations@)),
            ),
            *final(self) == *final(ret),
    {
        self.precondition_failure = Some(PreconditionFailure::new(violations));
        self
    }

    /// Adds one precondition violation behind those that are there; where there are
    /// none yet, the slot is filled with that one.
    pub fn add_precondition_failure_violation(
        &mut self,
        violation_type: &str,
        subject: &str,
        description: &str,
    ) -> (ret: &mut Self)
        ensures
            ret@ == old(self)@.put(
                ErrorDetailView::PreconditionFailure(
                    appended(
                        old(self)@.precondition_failure,
                        PreconditionViolationView {
                        violation_type: violation_type@,
                        subject: subject@,
                        description: description@,
                    },
                    ),
                ),
            ),
            *final(self) == *final(ret),
    {
        match &mut self.precondition_failure {
            Some(precondition_failure) => {
                precondition_failure.add_violation(violation_type, subject, description);
            },
            None => {
                self.precondition_failure = Some(
                    PreconditionFailure::with_violation(violation_type, subject, description),
                );
            },
        }
        self
    }

    /// Whether the slot is filled and holds at least one precondition violation.
    pub fn has_precondition_failure_violation(&self) -> (r: bool)
        ensures
            r == has_item(self@.precondition_failure),
    {
        match &self.precondition_failure {
            Some(precondition_failure) => !precondition_failure.is_empty(),
            None => false,
        }
    }

    /// Fills the slot of this kind, in place of what was there, with
    /// field violations.
    pub fn set_bad_request(&mut self, violations: Vec<FieldViolation>) -> (ret: &mut Self)
        ensures
            ret@ == old(self)@.put(
                ErrorDetailView::BadRequest(models::<FieldViolation>(violations@)),
            ),
            *final(self) == *final(ret),
    {
        self.bad_request = Some(BadRequest::new(violations));
        self
    }

    /// Adds one field violation behind those that are there; where there are
    /// none yet, the slot is filled with that one.
    pub fn add_bad_request_violation(&mut self, field: &str, description: &str) -> (ret: &mut Self)
        ensures
            ret@ == old(self)@.put(
                ErrorDetailView::BadRequest(
                    appended(
                        old(self)@.bad_request,
                        FieldViolationView { field: field@, description: description@ },
                    ),
                ),
            ),
            *final(self) == *final(ret),
    {
        match &mut self.bad_request {
            Some(bad_request) => {
                bad_request.add_violation(field, description);
            },
            None => {
                self.bad_request = Some(BadRequest::with_violation(field, description));
            },
        }
        self
    }

    /// Whether the slot is filled and holds at least one field violation.
    pub fn has_bad_request_violation(&self) -> (r: bool)
        ensures
            r == has_item(self@.bad_request),
    {
        match &self.bad_request {
            Some(bad_request) => !bad_request.is_empty(),
            None => false,
        }
    }

    /// Fills the slot of this kind, in place of what was there, with
    /// a request identifier and serving data.
    pub fn set_request_info(&mut self, request_id: &str, serving_data: &str) -> (ret: &mut Self)
        ensures
            ret@ == old(self)@.put(
                ErrorDetailView::RequestInfo(
                    RequestInfoView { request_id: request_id@, serving_data: serving_data@ },
                ),
            ),
            *final(self) == *final(ret),
    {
        self.request_info = Some(RequestInfo::new(request_id, serving_data));
        self
    }

    /// Fills the slot of this kind, in place of what was there, with
    /// the four texts of a resource.
    pub fn set_resource_info(
        &mut self,
        resource_type: &str,
        resource_name: &str,
        owner: &str,
        description: &str,
    ) -> (ret: &mut Self)
        ensures
            ret@ == old(self)@.put(
                ErrorDetailView::ResourceInfo(ResourceInfoView {
                    resource_type: resource_type@,
                    resource_name: resource_name@,
                    owner: owner@,
                    description: description@,
                }),
            ),
            *final(self) == *final(ret),
    {
        self.resource_info = Some(
            ResourceInfo::new(resource_type, resource_name, owner, description),
        );
        self
    }

    /// Fills the slot of this kind, in place of what was there, with
    /// links.
    pub fn set_help(&mut self, links: Vec<HelpLink>) -> (ret: &mut Self)
        ensures
            ret@ == old(self)@.put(
                ErrorDetailView::Help(models::<HelpLink>(links@)),
            ),
            *final(self) == *final(ret),
    {
        self.help = Some(Help::new(links));
        self
    }

    /// Adds one link behind those that are there; where there are
    /// none yet, the slot is filled with that one.
    pub fn add_help_link(&mut self, description: &str, url: &str) -> (ret: &mut Self)
        ensures
            ret@ == old(self)@.put(
                ErrorDetailView::Help(
                    appended(
                        old(self)@.help,
                        HelpLinkView { description: description@, url: url@ },
                    ),
                ),
            ),
            *final(self) == *final(ret),
    {
        match &mut self.help {
            Some(help) => {
                help.add_link(description, url);
            },
            None => {
                self.help = Some(Help::with_link(description, url));
            },
        }
        self
    }

    /// Whether the slot is filled and holds at least one link.
    pub fn has_help_link(&self) -> (r: bool)
        ensures
            r == has_item(self@.help),
    {
        match &self.help {
            Some(help) => !help.is_empty(),
            None => false,
        }
    }

    /// Fills the slot of this kind, in place of what was there, with
    /// a locale and a message.
    pub fn set_localized_message(&mut self, locale: &str, message: &str) -> (ret: &mut Self)
        ensures
            ret@ == old(self)@.put(
                ErrorDetailView::LocalizedMessage(
                    LocalizedMessageView { locale: locale@, message: message@ },
                ),
            ),
            *final(self) == *final(ret),
    {
        self.localized_message = Some(LocalizedMessage::new(locale, message));
        self
    }

    /// Puts a detail into the slot of its kind, in place of what was there.
    pub fn put(&mut self, detail: ErrorDetail)
        ensures
            final(self)@ == old(self)@.put(detail@),
    {
        match detail {
            ErrorDetail::RetryInfo(detail) => {
                self.retry_info = Some(detail);
            },
            ErrorDetail::DebugInfo(detail) => {
                self.debug_info = Some(detail);
            },
            ErrorDetail::QuotaFailure(detail) => {
                self.quota_failure = Some(detail);
            },
            ErrorDetail::ErrorInfo(detail) => {
                self.error_info = Some(detail);
            },
            ErrorDetail::PreconditionFailure(detail) => {
                self.precondition_failure = Some(detail);
            },
            ErrorDetail::BadRequest(detail) => {
                self.bad_request = Some(detail);
            },
            ErrorDetail::RequestInfo(detail) => {
                self.request_info = Some(detail);
            },
            ErrorDetail::ResourceInfo(detail) => {
                self.resource_info = Some(detail);
            },
            ErrorDetail::Help(detail) => {
                self.help = Some(detail);
            },
            ErrorDetail::LocalizedMessage(detail) => {
                self.localized_message = Some(detail);
            },
        }
    }

    /// The details of the set in the order of the catalog.
    pub fn into_list(self) -> (details: Vec<ErrorDetail>)
        ensures
            detail_views(details@) == self@.listed(),
    {
        let mut details: Vec<ErrorDetail> = Vec::new();
        let ghost set = self@;
        assert(detail_views(details@) =~= set.listed_upto(0));
        let retry_info = match self.retry_info {
            Some(detail) => Some(ErrorDetail::RetryInfo(detail)),
            None => None,
        };
        push_slot(&mut details, retry_info);
        assert(detail_views(details@) == set.listed_upto(1));
        let debug_info = match self.debug_info {
            Some(detail) => Some(ErrorDetail::DebugInfo(detail)),
            None => None,
        };
        push_slot(&mut details, debug_info);
        assert(detail_views(details@) == set.listed_upto(2));
        let quota_failure = match self.quota_failure {
            Some(detail) => Some(ErrorDetail::QuotaFailure(detail)),
            None => None,
        };
        push_slot(&mut details, quota_failure);
        assert(detail_views(details@) == set.listed_upto(3));
        let error_info = match self.error_info {
            Some(detail) => Some(ErrorDetail::ErrorInfo(detail)),
            None => None,
        };
        push_slot(&mut details, error_info);
        assert(detail_views(details@) == set.listed_upto(4));
        let precondition_failure = match self.precondition_failure {
            Some(detail) => Some(ErrorDetail::PreconditionFailure(detail)),
            None => None,
        };
        push_slot(&mut details, precondition_failure);
        assert(detail_views(details@) == set.listed_upto(5));
        let bad_request = match self.bad_request {
            Some(detail) => Some(ErrorDetail::BadRequest(detail)),
            None => None,
        };
        push_slot(&mut details, bad_request);
        assert(detail_views(details@) == set.listed_upto(6));
        let request_info = match self.request_info {
            Some(detail) => Some(ErrorDetail::RequestInfo(detail)),
            None => None,
        };
        push_slot(&mut details, request_info);
        assert(detail_views(details@) == set.listed_upto(7));
        let resource_info = match self.resource_info {
            Some(detail) => Some(ErrorDetail::ResourceInfo(detail)),
            None => None,
        };
        push_slot(&mut details, resource_info);
        assert(detail_views(details@) == set.listed_upto(8));
        let help = match self.help {
            Some(detail) => Some(ErrorDetail::Help(detail)),
            None => None,
        };
        push_slot(&mut details, help);
        assert(detail_views(details@) == set.listed_upto(9));
        let localized_message = match self.localized_message {
            Some(detail) => Some(ErrorDetail::LocalizedMessage(detail)),
            None => None,
        };
        push_slot(&mut details, localized_message);
        assert(detail_views(details@) == set.listed_upto(10));
        details
    }

    /// The set that a list of details makes: of two details of one kind the
    /// later one stays.
    pub fn from_list(details: Vec<ErrorDetail>) -> (r: Self)
        ensures
            r@ == collected(detail_views(details@)),
    {
        let mut set = ErrorDetails::new();
        let ghost all = detail_views(details@);
        assert(all.take(0) =~= Seq::empty());
        for detail in iter: details.into_iter()
            invariant
                all == detail_views(iter.seq()),
                set@ == collected(all.take(iter.index() as int)),
        {
            proof {
                let done = all.take(iter.index() + 1);
                assert(done.drop_last() =~= all.take(iter.index() as int));
                assert(done.last() == detail@);
            }
            set.put(detail);
        }
        assert(all.take(all.len() as int) =~= all);
        set
    }
}

} // verus!
