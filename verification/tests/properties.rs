//! Concrete checks of the library's stated properties: the counter as the sum
//! of live weights, power-of-two local weights, the cost of duplication, the
//! single teardown, and read access to the shared value.

use warc::warc::Warc;
use warc::weights::INITIAL_WEIGHT;

#[test]
fn counter_equals_sum_of_live_weights() {
    let (mut cell, mut first) = Warc::new(0u64);
    let mut handles = Vec::new();
    for _ in 0usize..5 {
        handles.push(first.duplicate(&mut cell));
    }
    let held: usize = handles.iter().map(Warc::local).sum();
    assert_eq!(cell.weight(), first.local() + held);

    assert!(handles.pop().unwrap().release(&mut cell).is_none());
    let held: usize = handles.iter().map(Warc::local).sum();
    assert_eq!(cell.weight(), first.local() + held);

    while let Some(h) = handles.pop() {
        assert!(h.release(&mut cell).is_none());
    }
    assert_eq!(cell.weight(), first.local());
    assert!(first.release(&mut cell).is_some());
    assert_eq!(cell.weight(), 0);
}

#[test]
fn local_weights_stay_powers_of_two() {
    let (mut cell, mut first) = Warc::new(());
    let mut handles = Vec::new();
    // Enough rounds to exhaust the first handle's weight and force one
    // withdrawal on the way.
    for _ in 0usize..20 {
        let h = first.duplicate(&mut cell);
        let w = h.local();
        assert!(w >= 1 && w <= INITIAL_WEIGHT);
        assert_eq!(w & (w - 1), 0);
        assert_eq!(first.local(), w);
        handles.push(h);
    }
    while let Some(h) = handles.pop() {
        h.release(&mut cell);
    }
    first.release(&mut cell);
}

#[test]
fn cheap_duplication_leaves_counter_alone() {
    let (mut cell, mut first) = Warc::new(());
    // While the handle holds more than one unit, duplication never touches
    // the shared counter.
    let mut handles = Vec::new();
    for _ in 0usize..16 {
        assert!(first.local() > 1);
        let before = cell.weight();
        handles.push(first.duplicate(&mut cell));
        assert_eq!(cell.weight(), before);
    }
    // Down to one unit: the next duplication withdraws exactly one block
    // less the unit still held.
    assert_eq!(first.local(), 1);
    let before = cell.weight();
    let h = first.duplicate(&mut cell);
    assert_eq!(cell.weight(), before + (INITIAL_WEIGHT - 1));
    h.release(&mut cell);
    while let Some(h) = handles.pop() {
        h.release(&mut cell);
    }
    first.release(&mut cell);
}

#[test]
fn value_torn_down_exactly_once() {
    let (mut cell, mut first) = Warc::new(String::from("shared"));
    let mut second = first.duplicate(&mut cell);
    let third = second.duplicate(&mut cell);
    let fourth = first.duplicate(&mut cell);
    let fifth = first.duplicate(&mut cell);
    let mut handles = vec![second, third, fourth, fifth];

    let mut teardowns: usize = 0;
    while let Some(h) = handles.pop() {
        if h.release(&mut cell).is_some() {
            teardowns += 1;
        }
    }
    if first.release(&mut cell).is_some() {
        teardowns += 1;
    }
    assert_eq!(teardowns, 1);
    assert_eq!(cell.weight(), 0);
}

#[test]
fn access_returns_the_created_value() {
    let (mut cell, mut first) = Warc::new((7u64, String::from("payload")));
    let second = first.duplicate(&mut cell);
    let third = first.duplicate(&mut cell);

    assert_eq!(first.access(&cell).0, 7);
    assert_eq!(first.access(&cell).1, "payload");
    assert_eq!(second.access(&cell), first.access(&cell));

    assert!(third.release(&mut cell).is_none());
    assert_eq!(second.access(&cell).1, "payload");
    assert!(second.release(&mut cell).is_none());
    assert_eq!(first.access(&cell).1, "payload");

    let last = first.release(&mut cell);
    assert_eq!(last, Some((7u64, String::from("payload"))));
}
