use dcf77_receiver::timestamp_ring::{elapsed_ms, TimestampRing, HISTORY_CAPACITY};

#[test]
fn elapsed_ms_wraps() {
    assert_eq!(elapsed_ms(10, 1010), 1000);
    assert_eq!(elapsed_ms(u32::MAX - 499, 500), 1000);
    assert_eq!(elapsed_ms(5, 5), 0);
    assert_eq!(elapsed_ms(6, 5), u32::MAX);
}

#[test]
fn ring_starts_empty() {
    let ring = TimestampRing::new();
    assert_eq!(ring.len(), 0);
}

#[test]
fn ring_keeps_order() {
    let mut ring = TimestampRing::new();
    ring.push(30);
    ring.push(10);
    ring.push(20);
    assert_eq!(ring.len(), 3);
    assert_eq!(ring.get(0), 30);
    assert_eq!(ring.get(1), 10);
    assert_eq!(ring.get(2), 20);
}

#[test]
fn ring_overwrites_the_oldest_when_full() {
    let mut ring = TimestampRing::new();
    for t in 0..300u32 {
        ring.push(t);
    }
    assert_eq!(ring.len(), HISTORY_CAPACITY);
    assert_eq!(ring.get(0), 0);
    assert_eq!(ring.get(299), 299);
    ring.push(300);
    assert_eq!(ring.len(), 300);
    assert_eq!(ring.get(0), 1);
    assert_eq!(ring.get(298), 299);
    assert_eq!(ring.get(299), 300);
    for t in 301..1000u32 {
        ring.push(t);
    }
    assert_eq!(ring.len(), 300);
    for i in 0..300usize {
        assert_eq!(ring.get(i), 700 + i as u32);
    }
}
