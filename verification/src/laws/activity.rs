//! What holds of the order of reports.

use crate::activity::SendSuccessInfo;
use crate::send;
use core::cmp::Ordering;
use vstd::prelude::*;
use vstd::std_specs::cmp::{PartialEqSpec, PartialOrdSpec};

verus! {

/// Of two reports that the worker keeps, the one on the earlier activity is the greater one. They
/// are equal only when they say the same of the same activity.
pub proof fn law_order_is_backwards(a: SendSuccessInfo, b: SendSuccessInfo)
    ensures
        a.partial_cmp_spec(&b) == Some(Ordering::Equal) <==> a.activity_id == b.activity_id,
        a.partial_cmp_spec(&b) == Some(Ordering::Greater) <==> a.activity_id.0 < b.activity_id.0,
        a.partial_cmp_spec(&b) == Some(Ordering::Less) <==> b.partial_cmp_spec(&a) == Some(
            Ordering::Greater,
        ),
        a.eq_spec(&b) <==> a.activity_id == b.activity_id && a.published == b.published
            && a.was_skipped == b.was_skipped,
{
}

/// Of two reports of tasks, the one on the earlier activity is the greater one. They are equal when
/// they are about the same activity, and neither comes before the other then.
pub proof fn law_task_order_is_backwards(a: send::SendSuccessInfo, b: send::SendSuccessInfo)
    ensures
        a.eq_spec(&b) <==> a.partial_cmp_spec(&b) == Some(Ordering::Equal),
        a.eq_spec(&b) <==> a.activity_id == b.activity_id,
        a.partial_cmp_spec(&b) == Some(Ordering::Greater) <==> a.activity_id.0 < b.activity_id.0,
        a.partial_cmp_spec(&b) == Some(Ordering::Less) <==> b.partial_cmp_spec(&a) == Some(
            Ordering::Greater,
        ),
        a.partial_cmp_spec(&b) == a.spec_for_worker().partial_cmp_spec(&b.spec_for_worker()),
{
}

} // verus!
