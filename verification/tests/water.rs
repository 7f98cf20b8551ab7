use sync_problems::water_daemon;
use sync_problems::water_factory::{BondMonitor, WaterFactory};

#[test]
fn factory_admits_two_hydrogens_and_one_oxygen() {
    let mut f = WaterFactory::new();
    assert!(f.hydrogen(0));
    assert!(f.hydrogen(1));
    assert!(!f.hydrogen(2));
    assert!(f.oxygen(0));
    assert!(!f.oxygen(1));
}

#[test]
fn factory_barrier_releases_group_of_three() {
    let mut f = WaterFactory::new();
    assert!(f.hydrogen(0));
    assert!(f.hydrogen(1));
    assert!(f.oxygen(0));
    let (g, last) = f.hydrogen_meets();
    assert!(!last);
    assert!(!f.is_released(g));
    assert!(!f.oxygen_meets().1);
    assert_eq!((f.h_waiting(), f.o_waiting()), (1, 1));
    assert!(f.hydrogen_meets().1);
    assert_eq!((f.h_waiting(), f.o_waiting()), (0, 0));
    assert!(f.is_released(g));
    f.hydrogen_done();
    assert!(f.hydrogen(2));
    f.hydrogen_done();
    f.hydrogen_done();
    f.oxygen_done();
    assert!(f.oxygen(1));
}

#[test]
fn bond_monitor_tracks_peak_and_totals() {
    let mut m = BondMonitor::new();
    assert_eq!(m.start_h(), 1);
    assert_eq!(m.start_h(), 2);
    assert_eq!(m.start_o(), 1);
    m.update_max_total();
    m.end_h();
    m.end_h();
    m.end_o();
    m.update_max_total();
    assert_eq!(m.max_total(), 3);
    assert_eq!(m.h_bonds(), 2);
    assert_eq!(m.o_bonds(), 1);
}

#[test]
fn daemon_forms_molecules_in_arrival_order() {
    let mut f = water_daemon::WaterFactory::new();
    f.hydrogen(10);
    assert_eq!(f.next_molecule(), None);
    f.oxygen(20);
    assert_eq!(f.next_molecule(), None);
    f.hydrogen(11);
    f.hydrogen(12);
    f.oxygen(21);
    assert_eq!(f.next_molecule(), Some((10, 11, 20)));
    assert_eq!(f.next_molecule(), None);
    f.hydrogen(13);
    // the next molecule waits until all three atoms are done
    assert_eq!(f.next_molecule(), None);
    assert!(!f.atom_done());
    assert!(!f.atom_done());
    assert!(f.atom_done());
    assert_eq!(f.next_molecule(), Some((12, 13, 21)));
    assert_eq!(f.waiting_hydrogen(), 0);
    assert_eq!(f.waiting_oxygen(), 0);
}

#[test]
fn daemon_bonds_all_atoms() {
    let mut f = water_daemon::WaterFactory::new();
    for i in 0..100 {
        f.hydrogen(i);
    }
    for i in 0..50 {
        f.oxygen(i);
    }
    let mut molecules = 0;
    while let Some((h1, h2, o)) = f.next_molecule() {
        assert_eq!(h1, 2 * o);
        assert_eq!(h2, 2 * o + 1);
        assert_eq!(f.in_bond(), 3);
        for _ in 0..3 {
            f.atom_done();
        }
        molecules += 1;
    }
    assert_eq!(molecules, 50);
}

#[test]
fn daemon_queues_are_bounded() {
    use_limits();
}

fn use_limits() {
    let mut f = water_daemon::WaterFactory::new();
    for i in 0..water_daemon::N_HYDROGEN {
        assert!(f.can_queue_hydrogen());
        f.hydrogen(i);
    }
    assert!(!f.can_queue_hydrogen());
    for i in 0..water_daemon::N_OXYGEN {
        assert!(f.can_queue_oxygen());
        f.oxygen(i);
    }
    assert!(!f.can_queue_oxygen());
    assert_eq!(f.next_molecule(), Some((0, 1, 0)));
    assert!(f.can_queue_hydrogen());
    assert!(f.can_queue_oxygen());
}
