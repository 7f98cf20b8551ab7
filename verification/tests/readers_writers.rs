use sync_problems::kv_cache::{KVCacheHandRolled, KVCacheRw, KvMap};
use sync_problems::rw_lock::{Counters, RoomLock};

#[test]
fn counters_accept_readers_together() {
    let mut c = Counters::new();
    assert!(c.enter_read());
    assert!(c.enter_read());
    assert_eq!(c.readers(), 2);
    c.exit_read();
    c.exit_read();
    assert!(c.enter_write());
    c.exit_write();
    assert_eq!((c.readers(), c.writers()), (0, 0));
}

#[test]
fn counters_flag_writer_with_reader() {
    let mut c = Counters::new();
    assert!(c.enter_read());
    assert!(!c.enter_write());
}

#[test]
fn counters_flag_reader_with_writer() {
    let mut c = Counters::new();
    assert!(c.enter_write());
    assert!(!c.enter_read());
}

#[test]
fn counters_flag_two_writers() {
    let mut c = Counters::new();
    assert!(c.enter_write());
    assert!(!c.enter_write());
}

#[test]
fn room_first_reader_takes_room_last_frees_it() {
    let mut l = RoomLock::new();
    assert!(l.reader_pass_turnstile());
    assert!(l.reader_enter());
    assert!(l.reader_enter());
    assert_eq!(l.readers_inside(), 2);
    assert!(!l.reader_exit());
    assert!(l.reader_exit());
    assert_eq!(l.readers_inside(), 0);
}

#[test]
fn room_writer_waits_for_readers_and_blocks_new_ones() {
    let mut l = RoomLock::new();
    assert!(l.reader_enter());
    assert!(l.writer_take_turnstile());
    assert!(!l.reader_pass_turnstile());
    assert!(!l.writer_enter());
    assert!(l.reader_exit());
    assert!(l.writer_enter());
    assert!(l.writer_inside());
    assert!(!l.reader_enter());
    l.writer_exit();
    assert!(l.reader_pass_turnstile());
    assert!(l.reader_enter());
}

#[test]
fn second_writer_waits_at_turnstile() {
    let mut l = RoomLock::new();
    assert!(l.writer_take_turnstile());
    assert!(!l.writer_take_turnstile());
    assert!(l.writer_enter());
    l.writer_exit();
    assert!(l.writer_take_turnstile());
}

#[test]
fn kv_map_get_missing_is_empty() {
    let m = KvMap::new();
    assert_eq!(m.get("key1"), "");
}

#[test]
fn kv_map_set_then_get_and_overwrite() {
    let mut m = KvMap::new();
    m.set("key1".to_string(), "v1".to_string());
    m.set("key2".to_string(), "v2".to_string());
    assert_eq!(m.get("key1"), "v1");
    m.set("key1".to_string(), "v9".to_string());
    assert_eq!(m.get("key1"), "v9");
    assert_eq!(m.get("key2"), "v2");
}

#[test]
fn rw_cache_reads_what_was_written() {
    let mut c = KVCacheRw::new();
    assert_eq!(c.get("key3"), "");
    for i in 0..1000 {
        c.set(format!("key{}", i % 10), format!("v{}", i));
    }
    assert_eq!(c.get("key3"), "v993");
    assert_eq!(c.get("key9"), "v999");
}

#[test]
fn hand_rolled_cache_read_and_write_through_protocol() {
    let mut c = KVCacheHandRolled::new();
    assert!(c.writer_take_turnstile());
    assert!(c.writer_enter());
    c.write("key0".to_string(), "v0".to_string());
    c.writer_exit();
    assert!(c.reader_pass_turnstile());
    assert!(c.reader_enter());
    assert_eq!(c.read("key0"), "v0");
    assert_eq!(c.read("key5"), "");
    assert!(c.reader_exit());
}

#[test]
fn hand_rolled_writer_blocked_while_reader_inside() {
    let mut c = KVCacheHandRolled::new();
    assert!(c.reader_enter());
    assert!(c.writer_take_turnstile());
    assert!(!c.writer_enter());
    assert!(!c.reader_pass_turnstile());
    assert!(c.reader_exit());
    assert!(c.writer_enter());
}
