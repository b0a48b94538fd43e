//! The activities that were sent but cannot be written to the database yet.

use crate::activity::SendSuccessInfo;
use vstd::multiset::Multiset;
use vstd::prelude::*;

verus! {

/// Whether `first` is in the heap and no activity in it has a smaller number.
pub open spec fn is_first(heap: Multiset<SendSuccessInfo>, first: SendSuccessInfo) -> bool {
    &&& heap.contains(first)
    &&& forall|s: SendSuccessInfo| heap.contains(s) ==> first.id() <= #[trigger] s.id()
}

/// A binary heap with the smallest activity number on top.
pub struct SuccessHeap {
    items: Vec<SendSuccessInfo>,
}

spec fn parent(i: int) -> int {
    (i - 1) / 2
}

/// No item has a smaller number than its parent.
spec fn is_heap(items: Seq<SendSuccessInfo>) -> bool {
    forall|i: int| 0 < i < items.len() ==> items[parent(i)].id() <= (#[trigger] items[i]).id()
}

/// A heap but for the item at `hole`, which may be too small for its place.
spec fn is_heap_above(items: Seq<SendSuccessInfo>, hole: int) -> bool {
    &&& forall|i: int|
        0 < i < items.len() && i != hole ==> items[parent(i)].id() <= (#[trigger] items[i]).id()
    &&& forall|i: int|
        0 < i < items.len() && parent(i) == hole && hole > 0 ==> items[parent(hole)].id()
            <= (#[trigger] items[i]).id()
}

/// A heap but for the item at `hole`, which may be too large for its place.
spec fn is_heap_below(items: Seq<SendSuccessInfo>, hole: int) -> bool {
    &&& forall|i: int|
        0 < i < items.len() && parent(i) != hole ==> items[parent(i)].id() <= (
        #[trigger] items[i]).id()
    &&& forall|i: int|
        0 < i < items.len() && parent(i) == hole && hole > 0 ==> items[parent(hole)].id()
            <= (#[trigger] items[i]).id()
}

/// The top of a heap has the smallest number.
proof fn lemma_top_is_first(items: Seq<SendSuccessInfo>, i: int)
    requires
        is_heap(items),
        0 <= i < items.len(),
    ensures
        items[0].id() <= items[i].id(),
    decreases i,
{
    if i > 0 {
        lemma_top_is_first(items, parent(i));
    }
}

/// To exchange two items changes nothing of what there is.
proof fn lemma_exchange(items: Seq<SendSuccessInfo>, i: int, j: int)
    requires
        0 <= i < items.len(),
        0 <= j < items.len(),
    ensures
        items.update(i, items[j]).update(j, items[i]).to_multiset() == items.to_multiset(),
{
    broadcast use {
        vstd::multiset::group_multiset_axioms,
        vstd::seq_lib::to_multiset_update,
        vstd::seq_lib::to_multiset_contains,
    };

    let mid = items.update(i, items[j]);
    let all = items.to_multiset();
    assert(items.contains(items[i]));
    assert(all.count(items[i]) > 0);
    assert(mid.to_multiset() == all.insert(items[j]).remove(items[i]));
    if i == j {
        assert(mid.update(j, items[i]) == items);
    } else {
        assert(mid[j] == items[j]);
        assert(mid.contains(items[j]));
        assert(mid.update(j, items[i]).to_multiset() == mid.to_multiset().insert(items[i]).remove(
            items[j],
        ));
        assert(mid.update(j, items[i]).to_multiset() =~= all);
    }
}

fn exchange(items: &mut Vec<SendSuccessInfo>, i: usize, j: usize)
    requires
        i < old(items)@.len(),
        j < old(items)@.len(),
    ensures
        final(items)@ == old(items)@.update(i as int, old(items)@[j as int]).update(
            j as int,
            old(items)@[i as int],
        ),
        final(items)@.to_multiset() == old(items)@.to_multiset(),
{
    proof {
        lemma_exchange(items@, i as int, j as int);
    }
    let a = items[i];
    let b = items[j];
    items.set(i, b);
    items.set(j, a);
}

/// Moves the last item up to where it belongs.
fn sift_up(items: &mut Vec<SendSuccessInfo>)
    requires
        old(items)@.len() > 0,
        is_heap(old(items)@.drop_last()),
    ensures
        is_heap(final(items)@),
        final(items)@.to_multiset() == old(items)@.to_multiset(),
{
    let mut hole: usize = items.len() - 1;
    proof {
        assert forall|i: int| 0 < i < items@.len() && i != hole implies items@[parent(i)].id() <= (
        #[trigger] items@[i]).id() by {
            let rest = items@.drop_last();
            assert(rest[i] == items@[i] && rest[parent(i)] == items@[parent(i)]);
        }
    }
    while hole > 0
        invariant
            hole < items@.len(),
            is_heap_above(items@, hole as int),
            items@.to_multiset() == old(items)@.to_multiset(),
        ensures
            is_heap(items@),
        decreases hole,
    {
        let up: usize = (hole - 1) / 2;
        if items[up].activity_id.0 <= items[hole].activity_id.0 {
            break;
        }
        let ghost before = items@;
        exchange(items, hole, up);
        proof {
            assert forall|i: int|
                0 < i < items@.len() && i != up implies items@[parent(i)].id() <= (
            #[trigger] items@[i]).id() by {
                assert(before[hole as int].id() < before[up as int].id());
                if i != hole && parent(i) == hole {
                    assert(before[up as int].id() <= before[i].id());
                } else if i != hole {
                    assert(before[parent(i)].id() <= before[i].id());
                }
            }
            assert forall|i: int|
                0 < i < items@.len() && parent(i) == up && up > 0 implies items@[parent(
                up as int,
            )].id() <= (#[trigger] items@[i]).id() by {
                assert(before[parent(up as int)].id() <= before[up as int].id());
                if i != hole {
                    assert(before[up as int].id() <= before[i].id());
                }
            }
        }
        hole = up;
    }
}

/// Moves the first item down to where it belongs.
fn sift_down(items: &mut Vec<SendSuccessInfo>)
    requires
        is_heap_below(old(items)@, 0),
    ensures
        is_heap(final(items)@),
        final(items)@.to_multiset() == old(items)@.to_multiset(),
{
    let len: usize = items.len();
    let mut hole: usize = 0;
    while hole < len / 2
        invariant
            len == items@.len(),
            hole < len || len == 0,
            is_heap_below(items@, hole as int),
            items@.to_multiset() == old(items)@.to_multiset(),
        ensures
            is_heap(items@),
        decreases len - hole,
    {
        let left: usize = 2 * hole + 1;
        let mut down: usize = left;
        if left + 1 < len && items[left + 1].activity_id.0 < items[left].activity_id.0 {
            down = left + 1;
        }
        if items[hole].activity_id.0 <= items[down].activity_id.0 {
            break;
        }
        let ghost before = items@;
        exchange(items, hole, down);
        proof {
            assert forall|i: int|
                0 < i < items@.len() && parent(i) != down implies items@[parent(i)].id() <= (
            #[trigger] items@[i]).id() by {
                if parent(i) == hole {
                    assert(i == left || i == left + 1);
                } else if i == hole {
                    assert(before[parent(hole as int)].id() <= before[down as int].id());
                } else {
                    assert(before[parent(i)].id() <= before[i].id());
                }
            }
            assert forall|i: int| 0 < i < items@.len() && parent(i) == down implies items@[parent(
                down as int,
            )].id() <= (#[trigger] items@[i]).id() by {
                assert(before[parent(i)].id() <= before[i].id());
            }
        }
        hole = down;
    }
}

impl View for SuccessHeap {
    type V = Multiset<SendSuccessInfo>;

    closed spec fn view(&self) -> Multiset<SendSuccessInfo> {
        self.items@.to_multiset()
    }
}

impl SuccessHeap {
    #[verifier::type_invariant]
    spec fn wf(self) -> bool {
        is_heap(self.items@)
    }

    pub fn new() -> (heap: SuccessHeap)
        ensures
            heap@ == Multiset::<SendSuccessInfo>::empty(),
    {
        let heap = SuccessHeap { items: Vec::new() };
        proof {
            heap.items@.to_multiset_ensures();
            assert(heap.items@.to_multiset() =~= Multiset::<SendSuccessInfo>::empty());
        }
        heap
    }

    pub fn len(&self) -> (len: usize)
        ensures
            len == self@.len(),
    {
        proof {
            self.items@.to_multiset_ensures();
        }
        self.items.len()
    }

    /// The activity with the smallest number.
    pub fn peek(&self) -> (first: Option<&SendSuccessInfo>)
        ensures
            first is None <==> self@.len() == 0,
            first matches Some(s) ==> is_first(self@, *s),
    {
        proof {
            use_type_invariant(self);
            self.items@.to_multiset_ensures();
        }
        if self.items.len() == 0 {
            return None;
        }
        proof {
            lemma_first(self.items@);
        }
        Some(&self.items[0])
    }

    /// Adds an activity.
    pub fn push(&mut self, info: SendSuccessInfo)
        ensures
            final(self)@ == old(self)@.insert(info),
    {
        proof {
            use_type_invariant(&*self);
            self.items@.to_multiset_ensures();
        }
        let mut items: Vec<SendSuccessInfo> = Vec::new();
        core::mem::swap(&mut items, &mut self.items);
        items.push(info);
        assert(items@.drop_last() == old(self).items@);
        sift_up(&mut items);
        self.items = items;
    }

    /// Takes out an activity with the smallest number.
    pub fn pop(&mut self) -> (first: Option<SendSuccessInfo>)
        ensures
            first is None <==> old(self)@.len() == 0,
            first is None ==> final(self)@ == old(self)@,
            first matches Some(s) ==> is_first(old(self)@, s) && final(self)@ == old(self)@.remove(
                s,
            ),
    {
        proof {
            use_type_invariant(&*self);
            self.items@.to_multiset_ensures();
        }
        if self.items.len() == 0 {
            return None;
        }
        let mut items: Vec<SendSuccessInfo> = Vec::new();
        core::mem::swap(&mut items, &mut self.items);
        let ghost before = items@;
        proof {
            lemma_first(before);
        }
        let first = items.swap_remove(0);
        proof {
            lemma_swap_remove(before);
            assert forall|i: int| 0 < i < items@.len() && parent(i) != 0 implies items@[parent(
                i,
            )].id() <= (#[trigger] items@[i]).id() by {
                assert(before[parent(i)].id() <= before[i].id());
            }
        }
        sift_down(&mut items);
        self.items = items;
        Some(first)
    }
}

/// The top of a heap is its first item.
proof fn lemma_first(items: Seq<SendSuccessInfo>)
    requires
        is_heap(items),
        items.len() > 0,
    ensures
        is_first(items.to_multiset(), items[0]),
{
    broadcast use vstd::seq_lib::to_multiset_contains;

    assert(items.contains(items[0]));
    assert forall|s: SendSuccessInfo| items.to_multiset().contains(s) implies items[0].id()
        <= #[trigger] s.id() by {
        assert(items.to_multiset().count(s) > 0);
        let i = choose|i: int| 0 <= i < items.len() && items[i] == s;
        lemma_top_is_first(items, i);
    }
}

/// To put the last item in the place of the first takes the first one out.
proof fn lemma_swap_remove(items: Seq<SendSuccessInfo>)
    requires
        items.len() > 0,
    ensures
        items.update(0, items.last()).drop_last().to_multiset() == items.to_multiset().remove(
            items[0],
        ),
{
    let last = items.len() - 1;
    let swapped = items.update(0, items[last]).update(last, items[0]);
    lemma_exchange(items, 0, last);
    swapped.to_multiset_ensures();
    assert(swapped.remove(last) == items.update(0, items.last()).drop_last());
    assert(swapped[last] == items[0]);
}

} // verus!
