use phrtf_distance_proximity::delay::DelayRing;

#[test]
fn ring_has_two_slots_of_headroom_and_at_least_two_of_delay() {
    assert_eq!(DelayRing::new(0, 0i32).len(), 4);
    assert_eq!(DelayRing::new(1, 0i32).len(), 4);
    assert_eq!(DelayRing::new(2, 0i32).len(), 4);
    assert_eq!(DelayRing::new(152, 0i32).len(), 154);
}

#[test]
fn new_ring_is_filled_and_writes_first_to_slot_zero() {
    let r = DelayRing::new(5, 9u8);
    assert_eq!(r.write_pos(), 0);
    for i in 0..r.len() {
        assert_eq!(r.get(i), 9);
    }
}

#[test]
fn write_then_advance_wraps_around() {
    let mut r = DelayRing::new(2, 0i64);
    for k in 1..=6i64 {
        r.write(k);
        r.advance();
    }
    // Four slots: inputs 1..=4 filled them, 5 and 6 overwrote slots 0 and 1.
    assert_eq!(r.get(0), 5);
    assert_eq!(r.get(1), 6);
    assert_eq!(r.get(2), 3);
    assert_eq!(r.get(3), 4);
    assert_eq!(r.write_pos(), 2);
}

#[test]
fn write_does_not_move_the_position() {
    let mut r = DelayRing::new(3, 0i32);
    r.write(11);
    assert_eq!(r.write_pos(), 0);
    assert_eq!(r.get(0), 11);
    r.write(12);
    assert_eq!(r.get(0), 12);
    assert_eq!(r.get(1), 0);
}

#[test]
fn next_index_wraps_at_the_last_slot() {
    let r = DelayRing::new(3, 0i32);
    assert_eq!(r.len(), 5);
    assert_eq!(r.next_index(0), 1);
    assert_eq!(r.next_index(3), 4);
    assert_eq!(r.next_index(4), 0);
}

#[test]
fn reset_refills_and_rewinds() {
    let mut r = DelayRing::new(4, 0i32);
    for k in 0..9 {
        r.write(k + 1);
        r.advance();
    }
    assert_ne!(r.write_pos(), 0);
    r.reset(0);
    assert_eq!(r.write_pos(), 0);
    assert_eq!(r.len(), 6);
    for i in 0..r.len() {
        assert_eq!(r.get(i), 0);
    }
}

#[test]
fn clone_keeps_samples_and_position() {
    let mut r = DelayRing::new(2, 0i32);
    r.write(3);
    r.advance();
    r.write(4);
    let c = r.clone();
    assert_eq!(c.write_pos(), r.write_pos());
    for i in 0..r.len() {
        assert_eq!(c.get(i), r.get(i));
    }
}
