use lemmy_federate::heap::SuccessHeap;
use lemmy_federate::{send, ActivityId, SendActivityResult, SendSuccessInfo, Timestamp};
use std::cmp::Ordering;

fn info(id: i64) -> SendSuccessInfo {
    SendSuccessInfo { activity_id: ActivityId(id), published: None, was_skipped: false }
}

#[test]
fn order_is_backwards() {
    assert_eq!(Ordering::Greater, info(1).cmp(&info(2)));
    assert_eq!(Ordering::Less, info(2).cmp(&info(1)));
    assert_eq!(Ordering::Equal, info(2).cmp(&info(2)));
    assert_eq!(Some(Ordering::Greater), info(1).partial_cmp(&info(2)));
    assert!(info(1) > info(2));
}

#[test]
fn equality_is_by_all_that_is_kept() {
    assert!(info(3) == info(3));
    assert!(info(3) != info(4));
    let published = SendSuccessInfo { published: Some(Timestamp::epoch()), ..info(3) };
    assert!(info(3) != published);
    assert!(published == published);
    let later = SendSuccessInfo { published: Some(Timestamp::new(0, 1).unwrap()), ..info(3) };
    assert!(published != later);
    let skipped = SendSuccessInfo { was_skipped: true, ..info(3) };
    assert!(info(3) != skipped);
    assert_eq!(Some(Ordering::Equal), info(3).partial_cmp(&published));
    assert_eq!(Ordering::Equal, info(3).cmp(&skipped));
}

#[test]
fn equality_of_task_reports_is_by_activity() {
    let report = |id, published, was_skipped| send::SendSuccessInfo {
        activity_id: ActivityId(id),
        published,
        was_skipped,
    };
    let other = report(3, Some(Timestamp::epoch()), true);
    assert!(report(3, None, false) == other);
    assert!(report(4, None, false) != other);
    assert_eq!(Some(Ordering::Equal), report(3, None, false).partial_cmp(&other));
    assert_eq!(Ordering::Greater, report(2, None, false).cmp(&other));
    assert_eq!(Ordering::Less, report(4, None, false).cmp(&other));
    assert_eq!(Some(Ordering::Less), report(4, None, false).partial_cmp(&other));
}

#[test]
fn worker_is_told_all_that_a_task_reports() {
    let report = send::SendActivityResult::Success(send::SendSuccessInfo {
        activity_id: ActivityId(8),
        published: Some(Timestamp::epoch()),
        was_skipped: true,
    });
    let kept =
        SendSuccessInfo { published: Some(Timestamp::epoch()), was_skipped: true, ..info(8) };
    assert_eq!(SendActivityResult::Success(kept), report.for_worker());
    assert_eq!(
        SendActivityResult::Failure { fail_count: 4 },
        send::SendActivityResult::Failure { fail_count: 4 }.for_worker()
    );
}

#[test]
fn heap_gives_the_first_activity() {
    let mut heap = SuccessHeap::new();
    assert!(heap.peek().is_none());
    assert!(heap.pop().is_none());
    for id in [5, 3, 9, 1, 4, 1, 8, 7, 2, 6, -3, i64::MIN, i64::MAX] {
        heap.push(info(id));
    }
    assert_eq!(13, heap.len());
    let mut ids = vec![];
    while let Some(first) = heap.peek() {
        let first = first.activity_id;
        let popped = heap.pop().unwrap();
        assert_eq!(first, popped.activity_id);
        ids.push(popped.activity_id.0);
    }
    assert_eq!(vec![i64::MIN, -3, 1, 1, 2, 3, 4, 5, 6, 7, 8, 9, i64::MAX], ids);
    assert_eq!(0, heap.len());
}

#[test]
fn heap_works_like_the_one_of_std() {
    let mut heap = SuccessHeap::new();
    let mut other = std::collections::BinaryHeap::new();
    let mut seed: u64 = 7;
    for round in 0..2000 {
        seed = seed.wrapping_mul(6364136223846793005).wrapping_add(1442695040888963407);
        if round % 3 != 2 {
            let id = (seed >> 40) as i64 % 500;
            heap.push(info(id));
            other.push(std::cmp::Reverse(id));
        } else {
            assert_eq!(
                other.pop().map(|id| id.0),
                heap.pop().map(|popped| popped.activity_id.0)
            );
        }
        assert_eq!(other.len(), heap.len());
    }
}
