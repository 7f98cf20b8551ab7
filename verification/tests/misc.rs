use sync_problems::bounded_buffer::BoundedBuffer;
use sync_problems::cigarette::{Agent, SmokeLog, N_SMOKERS};
use sync_problems::clinic::{patient_action, Clinic, K_CHAIRS, M_DOCTORS};
use sync_problems::peak::{update_max, PeakCounter};
use sync_problems::random::{jitter_ms, random_in_range, random_index};

#[test]
fn update_max_takes_larger() {
    assert_eq!(update_max(3, 5), 5);
    assert_eq!(update_max(5, 3), 5);
    assert_eq!(update_max(4, 4), 4);
}

#[test]
fn peak_counter_remembers_highest_occupancy() {
    let mut c = PeakCounter::new();
    assert_eq!(c.enter(), 1);
    assert_eq!(c.enter(), 2);
    c.exit();
    assert_eq!(c.enter(), 2);
    c.exit();
    c.exit();
    assert_eq!(c.now(), 0);
    assert_eq!(c.peak(), 2);
    assert_eq!(c.completed(), 3);
}

#[test]
fn random_in_singleton_range_is_its_only_value() {
    assert_eq!(random_in_range(5, 6), 5);
    assert_eq!(random_index(1), 0);
    assert_eq!(jitter_ms(0), 0);
}

#[test]
fn random_values_stay_in_range() {
    for _ in 0..200 {
        let r = random_in_range(10, 20);
        assert!((10..20).contains(&r));
        assert!(jitter_ms(3) <= 3);
        assert!(random_index(N_SMOKERS) < N_SMOKERS);
    }
}

#[test]
fn agent_deals_exactly_its_rounds() {
    let mut a = Agent::new(30);
    let mut dealt = 0;
    while let Some(s) = a.next_round() {
        assert!(s < N_SMOKERS);
        dealt += 1;
    }
    assert_eq!(dealt, 30);
    assert_eq!(a.rounds_left(), 0);
    assert_eq!(a.next_round(), None);
}

#[test]
fn smoke_log_counts_each_smoker() {
    let mut l = SmokeLog::new();
    for &id in [2usize, 0, 2].iter() {
        assert_eq!(l.dealt(), None);
        l.deal(id);
        assert_eq!(l.dealt(), Some(id));
        assert_eq!(l.start(id), 1);
        assert_eq!(l.smoking(), 1);
        l.finish(id);
        assert!(l.finished());
        assert_eq!(l.smoking(), 0);
        l.collect();
    }
    assert_eq!(l.count_of(2), 2);
    assert_eq!(l.count_of(0), 1);
    assert_eq!(l.count_of(1), 0);
    assert_eq!(l.total(), 3);
    assert_eq!(l.peak(), 1);
}

#[test]
fn patients_balk_when_waiting_room_full() {
    let mut room = BoundedBuffer::new(K_CHAIRS);
    for id in 0..K_CHAIRS {
        assert!(patient_action(&mut room, id));
    }
    assert!(!patient_action(&mut room, 99));
    assert_eq!(room.pop(), Some(0));
    assert!(patient_action(&mut room, 100));
}

#[test]
fn agent_deals_the_picked_smoker() {
    let mut a = Agent::new(2);
    assert_eq!(a.deal(2), Some(2));
    assert_eq!(a.deal(0), Some(0));
    assert_eq!(a.deal(1), None);
    assert_eq!(a.rounds_left(), 0);
}

#[test]
fn clinic_doctors_see_patients_in_order() {
    let mut c = Clinic::new();
    for id in 0..7 {
        let seated = c.patient_arrives(id);
        assert_eq!(seated, id < K_CHAIRS);
    }
    for doc in 0..M_DOCTORS {
        assert!(c.is_idle(doc));
        assert_eq!(c.doctor_takes(doc), Some(doc));
    }
    assert_eq!(c.busy(), M_DOCTORS);
    assert_eq!(c.doctor_finishes(1), 1);
    assert_eq!(c.busy(), M_DOCTORS - 1);
    assert_eq!(c.doctor_takes(1), Some(3));
    c.close();
    assert_eq!(c.doctor_finishes(0), 0);
    assert_eq!(c.doctor_takes(0), Some(4));
    assert!(c.can_take());
    for doc in 0..M_DOCTORS {
        c.doctor_finishes(doc);
    }
    assert_eq!(c.doctor_takes(2), None);
    assert_eq!(c.busy(), 0);
    assert_eq!(c.peak(), M_DOCTORS);
}

#[test]
fn random_draws_spread_over_their_range() {
    let draws: Vec<u64> = (0..50).map(|_| jitter_ms(1_000_000)).collect();
    assert!(draws.iter().any(|&d| d != 1_000_000));
    assert!(draws.iter().any(|&d| d != draws[0]));
    assert!(jitter_ms(u64::MAX) <= u64::MAX);
}
