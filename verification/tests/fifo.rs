use sync_problems::fifo_queue::{self, Acquired};
use sync_problems::fifo_semaphore;

#[test]
fn queue_semaphore_grants_initial_permits() {
    let mut s = fifo_queue::FifoSemaphore::new(2);
    assert_eq!(s.acquire(), Acquired::Granted);
    assert_eq!(s.acquire(), Acquired::Granted);
    assert_eq!(s.acquire(), Acquired::Queued(0));
    assert_eq!(s.count(), 0);
}

#[test]
fn queue_semaphore_wakes_waiters_in_arrival_order() {
    let mut s = fifo_queue::FifoSemaphore::new(0);
    for i in 0..16u64 {
        assert_eq!(s.acquire(), Acquired::Queued(i));
    }
    assert_eq!(s.waiting(), 16);
    for i in 0..16u64 {
        assert_eq!(s.release(), Some(i));
    }
    assert_eq!(s.release(), None);
    assert_eq!(s.count(), 1);
}

#[test]
fn release_without_waiters_adds_a_permit() {
    let mut s = fifo_queue::FifoSemaphore::new(0);
    assert_eq!(s.release(), None);
    assert_eq!(s.count(), 1);
    assert_eq!(s.acquire(), Acquired::Granted);
}

#[test]
fn ticket_semaphore_admits_in_ticket_order() {
    let mut s = fifo_semaphore::FifoSemaphore::new(0);
    let tickets: Vec<u64> = (0..16).map(|_| s.acquire()).collect();
    assert_eq!(tickets, (0..16).collect::<Vec<u64>>());
    for (k, t) in tickets.iter().enumerate() {
        assert!(!s.admits(*t));
        s.release();
        assert!(s.admits(*t));
        if k + 1 < tickets.len() {
            assert!(!s.admits(tickets[k + 1]));
        }
    }
}

#[test]
fn ticket_semaphore_initial_count_admits_first_tickets() {
    let mut s = fifo_semaphore::FifoSemaphore::new(2);
    let a = s.acquire();
    let b = s.acquire();
    let c = s.acquire();
    assert!(s.admits(a));
    assert!(s.admits(b));
    assert!(!s.admits(c));
}
