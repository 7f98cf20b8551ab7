use sync_problems::dining::{chopstick_order, right, Shared, SharedTokio, EATING, HUNGRY, N, THINKING};

fn no_adjacent(t: &SharedTokio) -> bool {
    (0..N).all(|i| !(t.state_of(i) == EATING && t.state_of((i + 1) % N) == EATING))
}

#[test]
fn tanenbaum_first_philosopher_eats_at_once() {
    let mut t = SharedTokio::new();
    assert!(t.take_forks(0));
    assert_eq!(t.state_of(0), EATING);
}

#[test]
fn tanenbaum_neighbour_waits_then_is_woken() {
    let mut t = SharedTokio::new();
    assert!(t.take_forks(0));
    assert!(!t.take_forks(1));
    assert_eq!(t.state_of(1), HUNGRY);
    assert!(!t.check_invariant(1));
    let (left, right) = t.put_forks(0);
    assert!(!left);
    assert!(right);
    assert_eq!(t.state_of(0), THINKING);
    assert_eq!(t.state_of(1), EATING);
}

#[test]
fn tanenbaum_two_non_neighbours_eat_together() {
    let mut t = SharedTokio::new();
    assert!(t.take_forks(0));
    assert!(t.take_forks(2));
    assert!(!t.take_forks(4));
    assert!(no_adjacent(&t));
}

#[test]
fn tanenbaum_never_lets_neighbours_eat_together() {
    let mut t = SharedTokio::new();
    let mut eating = [false; N];
    // a fixed interleaving of hungry and done philosophers
    let script = [0, 1, 2, 3, 4, 0, 2, 1, 4, 3, 0, 1, 2, 3, 4, 2, 0];
    for &p in script.iter() {
        if eating[p] {
            t.put_forks(p);
            eating[p] = false;
        } else if t.state_of(p) == THINKING {
            t.take_forks(p);
        }
        for i in 0..N {
            eating[i] = t.state_of(i) == EATING;
        }
        assert!(no_adjacent(&t));
    }
}

#[test]
fn tanenbaum_test_does_nothing_for_thinking_philosopher() {
    let mut t = SharedTokio::new();
    assert!(!t.tanenbaum_test(3));
    assert_eq!(t.state_of(3), THINKING);
}

#[test]
fn asymmetric_order_reverses_last_philosopher() {
    assert_eq!(chopstick_order(0), (0, 1));
    assert_eq!(chopstick_order(3), (3, 4));
    assert_eq!(chopstick_order(4), (0, 4));
    for p in 0..N {
        let (a, b) = chopstick_order(p);
        assert!(a < b);
    }
}

#[test]
fn witness_lets_only_chopstick_holders_eat() {
    let mut s = Shared::new();
    assert!(s.take_chopstick(0, 0));
    assert!(s.take_chopstick(0, 1));
    s.start_eating(0);
    assert_eq!(s.state_of(0), EATING);
    assert!(s.check_invariant(0));
    // philosopher 1 can get chopstick 2 but not chopstick 1
    assert!(s.take_chopstick(1, 2));
    assert!(!s.take_chopstick(1, 1));
    assert!(!s.check_invariant(1));
    s.set_state(0, THINKING);
    s.release_chopstick(0, 1);
    s.release_chopstick(0, 0);
    assert!(s.take_chopstick(1, 1));
    s.start_eating(1);
    assert!(s.check_invariant(1));
    assert!(s.holds(1, 1) && s.holds(1, right(1)));
}

#[test]
fn footman_seats_at_most_four() {
    let mut s = Shared::new();
    for p in 0..N - 1 {
        assert!(s.footman_enter(p));
        assert!(s.is_seated(p));
    }
    assert!(!s.footman_enter(N - 1));
    s.footman_leave(2);
    assert!(s.footman_enter(N - 1));
}

#[test]
fn witness_counts_meals_and_spread() {
    let mut s = Shared::new();
    assert_eq!(s.meal_spread(), (0, 0));
    s.set_state(2, HUNGRY);
    for _ in 0..3 {
        s.record_meal(2);
    }
    s.record_meal(4);
    assert_eq!(s.meals_of(2), 3);
    assert_eq!(s.meal_spread(), (0, 3));
}

#[test]
fn ordered_pickup_never_blocks_everybody() {
    let mut s = Shared::new();
    let mut firsts = Vec::new();
    for p in 0..N {
        let (first, _) = chopstick_order(p);
        firsts.push(s.take_chopstick(p, first));
    }
    assert_eq!(firsts, vec![true, true, true, true, false]);
    let (_, second) = chopstick_order(3);
    assert!(s.take_chopstick(3, second));
}

#[test]
fn backoff_puts_first_chopstick_back_when_second_taken() {
    let mut s = Shared::new();
    assert!(s.take_chopstick(1, 1));
    assert!(s.take_chopstick(0, 0));
    assert!(!s.take_other_or_back_off(0, 0, 1));
    assert!(!s.holds(0, 0));
    assert!(s.take_chopstick(0, 0));
    s.release_chopstick(1, 1);
    assert!(s.take_other_or_back_off(0, 0, 1));
    assert!(s.holds(0, 0) && s.holds(0, 1));
}
