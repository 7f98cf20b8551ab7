use sync_problems::barrier::{pretend_work, MyBarrier, MyBarrierTokio, RoundTracker};

#[test]
fn barrier_releases_generation_on_last_arrival() {
    let mut b = MyBarrier::new(3);
    let (g0, last0) = b.arrive_and_wait();
    let (g1, last1) = b.arrive_and_wait();
    assert_eq!((g0, last0), (0, false));
    assert_eq!((g1, last1), (0, false));
    assert!(!b.is_released(0));
    let (g2, last2) = b.arrive_and_wait();
    assert_eq!((g2, last2), (0, true));
    assert!(b.is_released(0));
    assert_eq!(b.generation(), 1);
}

#[test]
fn barrier_is_reusable_for_many_rounds() {
    let mut b = MyBarrier::new(8);
    for round in 0..100 {
        for t in 0..8 {
            let (g, last) = b.arrive_and_wait();
            assert_eq!(g, round);
            assert_eq!(last, t == 7);
        }
        assert!(b.is_released(round));
    }
    assert_eq!(b.generation(), 100);
}

#[test]
fn single_thread_barrier_never_waits() {
    let mut b = MyBarrier::new(1);
    let (g, last) = b.arrive_and_wait();
    assert_eq!(g, 0);
    assert!(last);
    assert!(b.is_released(g));
}

#[test]
fn turnstiles_let_exactly_expected_through() {
    let mut b = MyBarrierTokio::new(2);
    assert_eq!(b.idle(), 2);
    assert!(!b.arrive_and_wait());
    assert!(!b.try_pass_first());
    assert!(b.arrive_and_wait());
    assert_eq!(b.at_first(), 2);
    assert!(b.try_pass_first());
    assert!(b.try_pass_first());
    assert_eq!(b.between(), 2);
    assert!(!b.depart());
    assert!(!b.try_pass_second());
    assert!(b.depart());
    assert!(b.try_pass_second());
    assert!(b.try_pass_second());
    assert_eq!(b.idle(), 2);
    // next round starts from scratch
    assert!(!b.arrive_and_wait());
    assert!(!b.try_pass_first());
}

#[test]
fn fast_caller_cannot_pass_on_last_rounds_permits() {
    let mut b = MyBarrierTokio::new(2);
    b.arrive_and_wait();
    b.arrive_and_wait();
    b.try_pass_first();
    b.try_pass_first();
    b.depart();
    b.depart();
    // one caller finishes the round and comes straight back
    assert!(b.try_pass_second());
    assert!(!b.arrive_and_wait());
    assert!(!b.try_pass_first());
    // the slow caller finishes the old round; now the new round can fill
    assert!(b.try_pass_second());
    assert!(b.arrive_and_wait());
    assert!(b.try_pass_first());
}

#[test]
fn pretend_work_sums_first_thousand() {
    assert_eq!(pretend_work(), 499500);
}

#[test]
fn round_tracker_advances_after_all_check_in() {
    let mut t = RoundTracker::new();
    assert!(t.observe(0));
    for i in 0..8 {
        assert!(t.observe(0));
        assert_eq!(t.check_in(0, 8), i == 7);
    }
    assert!(t.observe(1));
    assert!(!t.observe(0));
}
