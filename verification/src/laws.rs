//! What holds of every record: a fresh one is empty, and one to which
//! something was added is not.

use vstd::prelude::*;
use crate::error_details::appended;
use crate::error_details::has_item;
use crate::error_details::ErrorDetailsView;
use crate::message::Message;
use crate::std_messages::BadRequest;
use crate::std_messages::DebugInfo;
use crate::std_messages::Help;
use crate::std_messages::LocalizedMessage;
use crate::std_messages::PreconditionFailure;
use crate::std_messages::QuotaFailure;
use crate::std_messages::RequestInfo;
use crate::std_messages::ResourceInfo;
use crate::std_messages::error_info::empty_metadata;
use crate::std_messages::error_info::ErrorInfoView;

verus! {

/// A record whose fields are all at their default is empty: it has no
/// violations, links or stack entries, its texts are empty, and its
/// metadata holds nothing.
pub proof fn lemma_fresh_record_is_empty()
    ensures
        DebugInfo::blank().is_empty(),
        QuotaFailure::blank().len() == 0,
        (ErrorInfoView {
            reason: Seq::empty(),
            domain: Seq::empty(),
            metadata: empty_metadata(),
        }).is_empty(),
        PreconditionFailure::blank().len() == 0,
        BadRequest::blank().len() == 0,
        RequestInfo::blank().is_empty(),
        ResourceInfo::blank().is_empty(),
        Help::blank().len() == 0,
        LocalizedMessage::blank().is_empty(),
{
}

/// A list of violations or links is not empty once an item was added to it,
/// whatever it held before.
pub proof fn lemma_added_item_fills<A>(before: Seq<A>, item: A)
    ensures
        before.push(item).len() > 0,
{
}

/// No list slot of a fresh set has an item.
pub proof fn lemma_fresh_set_has_no_item()
    ensures
        !has_item(ErrorDetailsView::empty().quota_failure),
        !has_item(ErrorDetailsView::empty().precondition_failure),
        !has_item(ErrorDetailsView::empty().bad_request),
        !has_item(ErrorDetailsView::empty().help),
{
}

/// A list slot of a set has an item once one was added to it, whether the
/// slot was filled before or not.
pub proof fn lemma_added_item_fills_slot<A>(slot: Option<Seq<A>>, item: A)
    ensures
        has_item(Some(appended(slot, item))),
{
}

} // verus!
