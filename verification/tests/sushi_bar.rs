use sync_problems::sushi_bar::{SushiBar, GROUP_SIZE};

#[test]
fn new_bar_is_open_and_empty() {
    let b = SushiBar::new();
    assert!(!b.must_wait());
    assert_eq!(b.seated(), 0);
}

#[test]
fn fifth_customer_closes_the_door() {
    let mut b = SushiBar::new();
    for id in 0..4 {
        b.arrive(id);
        assert!(!b.must_wait());
    }
    b.arrive(4);
    assert_eq!(b.seated(), GROUP_SIZE);
    assert!(b.must_wait());
}

#[test]
fn door_reopens_only_after_whole_group_left() {
    let mut b = SushiBar::new();
    for id in 0..5 {
        b.arrive(id);
    }
    for id in 0..4 {
        assert!(!b.leave(id));
        assert!(b.must_wait());
    }
    assert!(b.leave(4));
    assert!(!b.must_wait());
    assert_eq!(b.seated(), 0);
}

#[test]
fn customers_leaving_in_open_mode_do_not_reopen() {
    let mut b = SushiBar::new();
    b.arrive(0);
    b.arrive(1);
    assert!(!b.leave(0));
    assert_eq!(b.seated(), 1);
    assert!(!b.must_wait());
}

#[test]
fn thirty_customers_in_waves_all_get_served() {
    let mut b = SushiBar::new();
    let mut served = 0;
    let mut waiting = 30;
    while waiting > 0 {
        while waiting > 0 && !b.must_wait() {
            b.arrive(waiting);
            waiting -= 1;
            assert!(b.seated() <= GROUP_SIZE);
        }
        while b.seated() > 0 {
            b.leave(0);
            served += 1;
        }
    }
    assert_eq!(served, 30);
}
