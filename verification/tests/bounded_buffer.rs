use sync_problems::bounded_buffer::{BoundedBuffer, PushError};

#[test]
fn new_buffer_is_empty_and_open() {
    let b: BoundedBuffer<String> = BoundedBuffer::new(8);
    assert_eq!(b.len(), 0);
    assert_eq!(b.capacity(), 8);
    assert!(!b.is_closed());
    assert!(b.can_push());
    assert!(!b.can_pop());
}

#[test]
fn items_come_out_in_push_order() {
    let mut b = BoundedBuffer::new(3);
    assert_eq!(b.push("P0#0".to_string()), Ok(()));
    assert_eq!(b.push("P1#0".to_string()), Ok(()));
    assert_eq!(b.push("P0#1".to_string()), Ok(()));
    assert_eq!(b.pop(), Some("P0#0".to_string()));
    assert_eq!(b.pop(), Some("P1#0".to_string()));
    assert_eq!(b.pop(), Some("P0#1".to_string()));
    assert!(!b.can_pop());
}

#[test]
fn full_buffer_makes_producers_wait() {
    let mut b = BoundedBuffer::new(2);
    b.push(1).unwrap();
    b.push(2).unwrap();
    assert!(!b.can_push());
    assert_eq!(b.pop(), Some(1));
    assert!(b.can_push());
}

#[test]
fn push_after_close_hands_item_back() {
    let mut b = BoundedBuffer::new(2);
    b.push(7).unwrap();
    b.close();
    assert!(b.is_closed());
    assert!(b.can_push());
    assert_eq!(b.push(9), Err(9));
    assert_eq!(b.len(), 1);
}

#[test]
fn pop_drains_then_returns_none_after_close() {
    let mut b = BoundedBuffer::new(4);
    b.push(1).unwrap();
    b.push(2).unwrap();
    b.close();
    assert_eq!(b.pop(), Some(1));
    assert_eq!(b.pop(), Some(2));
    assert!(b.can_pop());
    assert_eq!(b.pop(), None);
    assert_eq!(b.pop(), None);
}

#[test]
fn try_push_reports_full_and_closed() {
    let mut b = BoundedBuffer::new(1);
    assert!(b.try_push(1).is_ok());
    match b.try_push(2) {
        Err(PushError::Full(x)) => assert_eq!(x, 2),
        _ => panic!("expected Full"),
    }
    b.close();
    match b.try_push(3) {
        Err(PushError::Closed(x)) => assert_eq!(x, 3),
        _ => panic!("expected Closed"),
    }
}

#[test]
fn all_produced_items_are_consumed() {
    // three producers, fifty items each, through a buffer of eight
    let mut b = BoundedBuffer::new(8);
    let mut produced = Vec::new();
    let mut consumed = Vec::new();
    for i in 0..50 {
        for pid in 0..3 {
            let item = format!("P{}#{}", pid, i);
            if !b.can_push() {
                while let Some(x) = if b.can_pop() { b.pop() } else { None } {
                    consumed.push(x);
                }
            }
            b.push(item.clone()).unwrap();
            produced.push(item);
        }
    }
    b.close();
    while let Some(x) = b.pop() {
        consumed.push(x);
    }
    assert_eq!(produced.len(), 150);
    assert_eq!(consumed, produced);
}

#[test]
fn zero_capacity_buffer_only_accepts_after_close() {
    let mut b: BoundedBuffer<u8> = BoundedBuffer::new(0);
    assert!(!b.can_push());
    b.close();
    assert!(b.can_push());
    assert_eq!(b.push(1), Err(1));
}
