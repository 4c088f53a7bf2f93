use zcore_asynccall::asynccall::PendingReason;
use zcore_asynccall::waiters::{AsyncCallInner, CompChecker, ReqChecker};

#[test]
fn nothing_parked_nothing_woken() {
    let mut inner = AsyncCallInner::<u32>::new(4);
    assert!(inner.wake_worker_wait_on_req_range(0..0).is_empty());
    assert!(inner.wake_worker_wait_on_comp_count(3).is_empty());
}

#[test]
fn wake_range_takes_the_slots_it_covers() {
    let mut inner = AsyncCallInner::<u32>::new(4);
    inner.pending(1, 10, PendingReason::RequestNotReady);
    inner.pending(3, 30, PendingReason::RequestNotReady);
    assert_eq!(inner.wake_worker_wait_on_req_range(1..3), vec![10]);
    assert!(inner.wake_worker_wait_on_req_range(1..3).is_empty());
    assert_eq!(inner.wake_worker_wait_on_req_range(0..4), vec![30]);
}

#[test]
fn wake_range_goes_round_the_end() {
    let mut inner = AsyncCallInner::<u32>::new(4);
    inner.pending(0, 100, PendingReason::RequestNotReady);
    inner.pending(2, 102, PendingReason::RequestNotReady);
    inner.pending(3, 103, PendingReason::RequestNotReady);
    assert_eq!(inner.wake_worker_wait_on_req_range(3..1), vec![103, 100]);
    assert_eq!(inner.wake_worker_wait_on_req_range(6..6), vec![102]);
}

#[test]
fn wake_range_counters_are_taken_modulo_the_slots() {
    let mut inner = AsyncCallInner::<u32>::new(3);
    inner.pending(1, 7, PendingReason::RequestNotReady);
    assert_eq!(inner.wake_worker_wait_on_req_range(4..5), vec![7]);
}

#[test]
fn parking_again_replaces_the_waker() {
    let mut inner = AsyncCallInner::<u32>::new(2);
    inner.pending(1, 1, PendingReason::RequestNotReady);
    inner.pending(1, 2, PendingReason::RequestNotReady);
    assert_eq!(inner.wake_worker_wait_on_req_range(0..0), vec![2]);
}

#[test]
fn comp_count_wakes_the_oldest_first() {
    let mut inner = AsyncCallInner::<u32>::new(2);
    inner.pending(0, 1, PendingReason::CompBufferFull);
    inner.pending(1, 2, PendingReason::CompBufferFull);
    inner.pending(0, 3, PendingReason::CompBufferFull);
    assert!(inner.wake_worker_wait_on_req_range(0..0).is_empty());
    assert!(inner.wake_worker_wait_on_comp_count(0).is_empty());
    assert_eq!(inner.wake_worker_wait_on_comp_count(2), vec![1, 2]);
    assert_eq!(inner.wake_worker_wait_on_comp_count(5), vec![3]);
    assert!(inner.wake_worker_wait_on_comp_count(1).is_empty());
}

#[test]
fn request_checker_wakes_the_slots_the_tail_passed() {
    let mut inner = AsyncCallInner::<u32>::new(4);
    let mut checker = ReqChecker::new();
    assert!(checker.poll(&mut inner, false, 0).unwrap().is_empty());
    inner.pending(2, 22, PendingReason::RequestNotReady);
    inner.pending(3, 33, PendingReason::RequestNotReady);
    assert_eq!(checker.poll(&mut inner, false, 3).unwrap(), vec![22]);
    assert_eq!(checker.tail(), 3);
    assert!(checker.poll(&mut inner, false, 3).unwrap().is_empty());
    assert_eq!(checker.poll(&mut inner, false, 4).unwrap(), vec![33]);
}

#[test]
fn completion_checker_wakes_as_many_as_consumed() {
    let mut inner = AsyncCallInner::<u32>::new(1);
    let mut checker = CompChecker::new();
    for w in 0..3 {
        inner.pending(0, w, PendingReason::CompBufferFull);
    }
    assert!(checker.poll(&mut inner, false, 0).unwrap().is_empty());
    assert_eq!(checker.poll(&mut inner, false, 2).unwrap(), vec![0, 1]);
    assert_eq!(checker.head(), 2);
    assert_eq!(checker.poll(&mut inner, false, 10).unwrap(), vec![2]);
    assert_eq!(checker.head(), 10);
}

#[test]
fn checkers_stop_when_the_thread_is_dead() {
    let mut inner = AsyncCallInner::<u32>::new(2);
    inner.pending(1, 5, PendingReason::RequestNotReady);
    inner.pending(0, 6, PendingReason::CompBufferFull);
    let mut req = ReqChecker::new();
    assert!(req.poll(&mut inner, true, 2).is_none());
    assert_eq!(req.tail(), 0);
    let mut comp = CompChecker::new();
    assert!(comp.poll(&mut inner, true, 1).is_none());
    assert_eq!(comp.head(), 0);
    assert_eq!(req.poll(&mut inner, false, 2).unwrap(), vec![5]);
    assert_eq!(comp.poll(&mut inner, false, 1).unwrap(), vec![6]);
}

#[test]
fn completion_checker_counts_across_the_wrap() {
    let mut inner = AsyncCallInner::<u32>::new(1);
    let mut checker = CompChecker::new();
    assert!(checker.poll(&mut inner, false, u32::MAX - 1).unwrap().is_empty());
    for w in 0..4 {
        inner.pending(0, w, PendingReason::CompBufferFull);
    }
    assert_eq!(checker.poll(&mut inner, false, 1).unwrap(), vec![0, 1, 2]);
    assert_eq!(checker.head(), 1);
}
