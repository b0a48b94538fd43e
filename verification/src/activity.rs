//! Activities, and what the worker of an instance is told of them.

use crate::time::Timestamp;
use core::cmp::Ordering;
use vstd::prelude::*;

verus! {

/// The number of an activity. Activities are numbered in the order in which they happened.
#[derive(Clone, Copy, Debug, PartialEq, Eq, Structural)]
pub struct ActivityId(pub i64);

impl ActivityId {
    /// The number itself.
    pub open spec fn number(self) -> int {
        self.0 as int
    }
}

/// An activity that needs no more sending, as the worker keeps it.
#[derive(Clone, Copy, Debug, Eq)]
pub struct SendSuccessInfo {
    pub activity_id: ActivityId,
    /// When the activity was published, if it was found.
    pub published: Option<Timestamp>,
    /// Whether there was nothing to send, or no way to send it.
    pub was_skipped: bool,
}

/// How two numbers compare.
pub open spec fn int_order(a: int, b: int) -> Ordering {
    if a < b {
        Ordering::Less
    } else if a == b {
        Ordering::Equal
    } else {
        Ordering::Greater
    }
}

/// How the first activity compares to the second, backwards by their numbers.
pub(crate) fn backwards(a: ActivityId, b: ActivityId) -> (order: Ordering)
    ensures
        order == int_order(b.number(), a.number()),
{
    if b.0 < a.0 {
        Ordering::Less
    } else if b.0 == a.0 {
        Ordering::Equal
    } else {
        Ordering::Greater
    }
}

impl SendSuccessInfo {
    /// The number of the activity.
    pub open spec fn id(self) -> int {
        self.activity_id.number()
    }

    /// How two of them compare: backwards by the number of the activity, so that the first
    /// activity is the greatest one.
    pub fn cmp(&self, other: &SendSuccessInfo) -> (order: Ordering)
        ensures
            order == int_order(other.id(), self.id()),
    {
        backwards(self.activity_id, other.activity_id)
    }
}

/// Two of them are equal when all is equal that they say of the activity.
impl PartialEq for SendSuccessInfo {
    fn eq(&self, other: &SendSuccessInfo) -> (same: bool) {
        let same_published = match (self.published, other.published) {
            (Some(published), Some(other_published)) => published == other_published,
            (None, None) => true,
            _ => false,
        };
        self.activity_id == other.activity_id && same_published && self.was_skipped
            == other.was_skipped
    }
}

impl vstd::std_specs::cmp::PartialEqSpecImpl for SendSuccessInfo {
    open spec fn obeys_eq_spec() -> bool {
        true
    }

    open spec fn eq_spec(&self, other: &SendSuccessInfo) -> bool {
        *self == *other
    }
}

/// The order is backwards by the number of the activity, as in [`SendSuccessInfo::cmp`].
impl PartialOrd for SendSuccessInfo {
    fn partial_cmp(&self, other: &SendSuccessInfo) -> (order: Option<Ordering>) {
        Some(self.cmp(other))
    }
}

impl vstd::std_specs::cmp::PartialOrdSpecImpl for SendSuccessInfo {
    open spec fn obeys_partial_cmp_spec() -> bool {
        true
    }

    open spec fn partial_cmp_spec(&self, other: &SendSuccessInfo) -> Option<Ordering> {
        Some(int_order(other.id(), self.id()))
    }
}

/// What the worker of the instance is told of the sending of an activity.
#[derive(Clone, Copy, Debug, PartialEq, Eq)]
pub enum SendActivityResult {
    /// The activity needs no more sending.
    Success(SendSuccessInfo),
    /// An attempt to send it failed, which makes so many failures in a row.
    Failure { fail_count: i32 },
}

/// The report on an activity that is not sent.
pub open spec fn skipped(id: ActivityId, published: Option<Timestamp>) -> SendActivityResult {
    SendActivityResult::Success(
        SendSuccessInfo { activity_id: id, published, was_skipped: true },
    )
}

/// The report on an activity that is not sent.
pub(crate) fn skip(id: ActivityId, published: Option<Timestamp>) -> (result: SendActivityResult)
    ensures
        result == skipped(id, published),
{
    SendActivityResult::Success(
        SendSuccessInfo { activity_id: id, published, was_skipped: true },
    )
}

} // verus!
