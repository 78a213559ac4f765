//! The two ledger tests of the weight-accounting protocol: splitting a
//! handle's private weight, and withdrawing a fresh block once it is spent.

use warc::warc::Warc;
use warc::weights::INITIAL_WEIGHT;

const DEFAULT_WEIGHT: usize = INITIAL_WEIGHT;

#[test]
fn local() {
    let (mut cell, mut warc) = Warc::new(());
    assert_eq!(warc.local(), DEFAULT_WEIGHT);
    assert_eq!(warc.global(&cell), DEFAULT_WEIGHT);

    let warcp = warc.duplicate(&mut cell);
    assert_eq!(warcp.local(), DEFAULT_WEIGHT >> 1);
    assert_eq!(warc.local(), DEFAULT_WEIGHT >> 1);
    assert_eq!(warc.global(&cell), DEFAULT_WEIGHT);

    assert!(warcp.release(&mut cell).is_none());
    assert_eq!(warc.local(), DEFAULT_WEIGHT >> 1);
    assert_eq!(warc.global(&cell), DEFAULT_WEIGHT >> 1);

    assert!(warc.release(&mut cell).is_some());
}

#[test]
fn global() {
    let (mut cell, mut warc) = Warc::new(());
    let mut clones = Vec::with_capacity(16);

    for i in 0usize..16 {
        assert_eq!(warc.local(), DEFAULT_WEIGHT >> i);
        assert_eq!(warc.global(&cell), DEFAULT_WEIGHT);

        let warcp = warc.duplicate(&mut cell);
        assert_eq!(warcp.local(), DEFAULT_WEIGHT >> (i + 1));
        assert_eq!(warc.local(), DEFAULT_WEIGHT >> (i + 1));

        clones.push(warcp);
    }

    assert_eq!(warc.local(), 1);

    let warcp = warc.duplicate(&mut cell);
    assert_eq!(warcp.local(), DEFAULT_WEIGHT >> 1);
    assert_eq!(warc.local(), DEFAULT_WEIGHT >> 1);
    assert_eq!(warc.global(&cell), (DEFAULT_WEIGHT << 1) - 1);

    let clone_sum: usize = clones.iter().map(Warc::local).sum();
    assert_eq!(warc.global(&cell), warc.local() + warcp.local() + clone_sum);

    while let Some(c) = clones.pop() {
        assert!(c.release(&mut cell).is_none());
    }
    assert_eq!(warc.global(&cell), warc.local() + warcp.local());

    assert!(warcp.release(&mut cell).is_none());
    assert!(warc.release(&mut cell).is_some());
    assert_eq!(cell.weight(), 0);
}
