use sync_problems::barbershop::{Barbershop, CHAIRS};

#[test]
fn customers_balk_when_chairs_full() {
    let mut s = Barbershop::new();
    for id in 0..CHAIRS as i32 {
        assert!(s.customer(id));
    }
    assert_eq!(s.customers(), CHAIRS);
    assert!(!s.customer(99));
    assert_eq!(s.customers(), CHAIRS);
}

#[test]
fn one_haircut_rendezvous() {
    let mut s = Barbershop::new();
    assert!(s.barber());
    assert!(!s.take_customer_ready());
    assert!(s.customer(0));
    assert!(!s.take_barber_ready());
    assert!(s.take_customer_ready());
    s.barber_ready();
    assert!(s.take_barber_ready());
    assert!(!s.customer_leaves());
    assert_eq!(s.customers(), 1);
    s.barber_done();
    assert!(!s.take_customer_done());
    assert!(s.customer_leaves());
    assert!(s.take_customer_done());
    assert_eq!(s.customers(), 0);
}

#[test]
fn shutdown_wakes_and_stops_barber() {
    let mut s = Barbershop::new();
    s.shutdown();
    assert!(!s.barber());
    assert!(s.take_customer_ready());
}

#[test]
fn served_and_balked_add_up() {
    let mut s = Barbershop::new();
    let mut served = 0;
    let mut balked = 0;
    for id in 0..30 {
        if s.customer(id) {
            if s.customers() == CHAIRS {
                // the barber works through the queue
                while s.customers() > 0 {
                    assert!(s.take_customer_ready());
                    s.barber_ready();
                    assert!(s.take_barber_ready());
                    s.barber_done();
                    assert!(s.customer_leaves());
                    assert!(s.take_customer_done());
                    served += 1;
                }
            }
        } else {
            balked += 1;
        }
    }
    while s.customers() > 0 {
        assert!(s.take_customer_ready());
        s.barber_ready();
        assert!(s.take_barber_ready());
        s.barber_done();
        assert!(s.customer_leaves());
        assert!(s.take_customer_done());
        served += 1;
    }
    assert_eq!(served + balked, 30);
}

#[test]
fn second_shutdown_changes_nothing() {
    let mut s = Barbershop::new();
    s.shutdown();
    s.shutdown();
    assert!(!s.barber());
    assert!(s.take_customer_ready());
    assert!(!s.take_customer_ready());
}

#[test]
fn semaphore_shutdown_posts_a_signal_every_time() {
    let mut s = Barbershop::new();
    s.shutdown_and_signal();
    s.shutdown_and_signal();
    assert!(!s.barber());
    assert!(s.take_customer_ready());
    assert!(s.take_customer_ready());
    assert!(!s.take_customer_ready());
}
