use chat_feed::rate::{CyclicArray, Nanos, WindowError};

const SECOND: Nanos = 1_000_000_000;

#[test]
fn average_counts_populated_slots_only() {
    let mut ring = CyclicArray::<5>::new();
    ring.put(SECOND);
    ring.put(2 * SECOND);
    ring.put(3 * SECOND);
    assert_eq!(ring.average(), Ok(2 * SECOND));
}

#[test]
fn average_of_nothing_is_an_error() {
    let ring = CyclicArray::<5>::new();
    assert_eq!(ring.average(), Err(WindowError::Unpopulated));
}

#[test]
fn average_of_one_sample_is_the_sample() {
    let mut ring = CyclicArray::<5>::new();
    ring.put(5_200_000_000);
    assert_eq!(ring.average(), Ok(5_200_000_000));
}

#[test]
fn average_rounds_down() {
    let mut ring = CyclicArray::<5>::new();
    ring.put(1);
    ring.put(2);
    assert_eq!(ring.average(), Ok(1));
    ring.put(2);
    assert_eq!(ring.average(), Ok(1));
    ring.put(3);
    assert_eq!(ring.average(), Ok(2));
}

#[test]
fn sixth_put_overwrites_the_oldest() {
    let mut ring = CyclicArray::<5>::new();
    for sample in [10, 20, 30, 40, 50] {
        ring.put(sample);
    }
    assert_eq!(ring.average(), Ok(30));
    ring.put(110);
    // 20, 30, 40, 50 and 110 are left
    assert_eq!(ring.average(), Ok(50));
    ring.put(120);
    // 30, 40, 50, 110 and 120 are left
    assert_eq!(ring.average(), Ok(70));
}

#[test]
fn ring_goes_round_more_than_once() {
    let mut ring = CyclicArray::<3>::new();
    for sample in 1..=10 {
        ring.put(sample);
    }
    // 8, 9 and 10 are left
    assert_eq!(ring.average(), Ok(9));
}

#[test]
fn zero_sample_leaves_its_slot_unpopulated() {
    let mut ring = CyclicArray::<5>::new();
    ring.put(0);
    assert_eq!(ring.average(), Err(WindowError::Unpopulated));
    ring.put(4 * SECOND);
    assert_eq!(ring.average(), Ok(4 * SECOND));
}

#[test]
fn zero_sample_unpopulates_the_slot_it_overwrites() {
    let mut ring = CyclicArray::<2>::new();
    ring.put(6);
    ring.put(2);
    assert_eq!(ring.average(), Ok(4));
    ring.put(0);
    assert_eq!(ring.average(), Ok(2));
    ring.put(0);
    assert_eq!(ring.average(), Err(WindowError::Unpopulated));
}

#[test]
fn ring_of_one_slot_keeps_the_last_sample() {
    let mut ring = CyclicArray::<1>::new();
    ring.put(7);
    ring.put(9);
    assert_eq!(ring.average(), Ok(9));
}

#[test]
fn ring_without_slots_keeps_nothing() {
    let mut ring = CyclicArray::<0>::new();
    ring.put(7);
    ring.put(9);
    assert_eq!(ring.average(), Err(WindowError::Unpopulated));
}

#[test]
fn largest_samples_do_not_overflow() {
    let mut ring = CyclicArray::<5>::new();
    for _ in 0..5 {
        ring.put(u64::MAX);
    }
    assert_eq!(ring.average(), Ok(u64::MAX));
    ring.put(u64::MAX - 5);
    assert_eq!(ring.average(), Ok(u64::MAX - 1));
}
