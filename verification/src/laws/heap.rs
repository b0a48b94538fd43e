//! What holds of the activities that wait for earlier ones.

use crate::activity::SendSuccessInfo;
use crate::heap::is_first;
use vstd::multiset::Multiset;
use vstd::prelude::*;

verus! {

/// What comes out first is in the heap, and nothing in it has a smaller number. Anything of which
/// this holds may come out first.
pub proof fn law_first_is_smallest(heap: Multiset<SendSuccessInfo>, first: SendSuccessInfo)
    ensures
        is_first(heap, first) <==> heap.count(first) > 0 && forall|s: SendSuccessInfo| #[trigger]
            heap.count(s) > 0 ==> first.activity_id.0 <= s.activity_id.0,
{
    if is_first(heap, first) {
        assert forall|s: SendSuccessInfo| #[trigger] heap.count(s) > 0 implies first.activity_id.0
            <= s.activity_id.0 by {
            assert(heap.contains(s));
            assert(first.id() <= s.id());
        }
    }
    if heap.count(first) > 0 && (forall|s: SendSuccessInfo| #[trigger]
        heap.count(s) > 0 ==> first.activity_id.0 <= s.activity_id.0) {
        assert forall|s: SendSuccessInfo| heap.contains(s) implies first.id()
            <= #[trigger] s.id() by {
            assert(heap.count(s) > 0);
        }
    }
}

/// What comes out one after the other has numbers that do not fall.
pub proof fn law_numbers_do_not_fall(
    heap: Multiset<SendSuccessInfo>,
    first: SendSuccessInfo,
    second: SendSuccessInfo,
)
    requires
        is_first(heap, first),
        is_first(heap.remove(first), second),
    ensures
        first.activity_id.0 <= second.activity_id.0,
{
    broadcast use vstd::multiset::group_multiset_axioms;

    assert(heap.contains(second));
    assert(first.id() <= second.id());
}

} // verus!
