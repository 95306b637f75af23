use epochs::Epoch;
use epochs::Height;
use epochs::Ordinal;
use epochs::BLOCKS;
use epochs::COIN_VALUE;
use epochs::INITIAL_SUBSIDY;

#[test]
fn starting_ordinal() {
    assert_eq!(Epoch(0).starting_ordinal().unwrap(), Ordinal::new(0));
    assert_eq!(
        Epoch(1).starting_ordinal().unwrap(),
        Ordinal::new(Epoch(0).subsidy() * BLOCKS)
    );
    assert_eq!(
        Epoch(2).starting_ordinal().unwrap(),
        Ordinal::new((Epoch(0).subsidy() + Epoch(1).subsidy()) * BLOCKS)
    );
    assert_eq!(Epoch(33).starting_ordinal(), None);
}

#[test]
fn starting_ordinals() {
    let mut ordinal = 0;

    let mut epoch_ordinals = Vec::new();

    for epoch in 0..33 {
        epoch_ordinals.push(ordinal);
        ordinal += BLOCKS * Epoch(epoch).subsidy();
    }

    assert_eq!(Epoch::starting_ordinal_table(), epoch_ordinals);
    assert_eq!(Epoch::starting_ordinal_table().len(), 33);
}

#[test]
fn subsidy() {
    assert_eq!(Epoch(0).subsidy(), 5000000000);
    assert_eq!(Epoch(1).subsidy(), 2500000000);
    assert_eq!(Epoch(32).subsidy(), 1);
    assert_eq!(Epoch(33).subsidy(), 0);
}

#[test]
fn blocks() {
    assert_eq!(BLOCKS, 210000);
}

#[test]
fn starting_height() {
    assert_eq!(Epoch(0).starting_height(), Height(0));
    assert_eq!(Epoch(1).starting_height(), Height(BLOCKS));
    assert_eq!(Epoch(2).starting_height(), Height(BLOCKS * 2));
}

#[test]
fn from_height() {
    assert_eq!(Epoch::from(Height(0)), Epoch(0));
    assert_eq!(Epoch::from(Height(BLOCKS)), Epoch(1));
    assert_eq!(Epoch::from(Height(BLOCKS + 1)), Epoch(1));
}

#[test]
fn from_ordinal() {
    assert_eq!(Epoch::from(Ordinal::new(0)), Epoch(0));
    assert_eq!(Epoch::from(Ordinal::new(1)), Epoch(0));
    assert_eq!(
        Epoch::from(Epoch(1).starting_ordinal().unwrap()),
        Epoch(1)
    );
    assert_eq!(
        Epoch::from(Ordinal::new(Epoch(1).starting_ordinal().unwrap().0 + 1)),
        Epoch(1)
    );
}

#[test]
fn eq() {
    assert!(Epoch(0).eq_index(0));
    assert!(Epoch(100).eq_index(100));
}

#[test]
fn constants() {
    assert_eq!(COIN_VALUE, 100_000_000);
    assert_eq!(INITIAL_SUBSIDY, 5_000_000_000);
}

#[test]
fn subsidy_past_shift_width() {
    assert_eq!(Epoch(63).subsidy(), 0);
    assert_eq!(Epoch(64).subsidy(), 0);
    assert_eq!(Epoch(u64::MAX).subsidy(), 0);
}

#[test]
fn table_reconstructed_from_subsidy() {
    let table = Epoch::starting_ordinal_table();
    for i in 0..32 {
        assert_eq!(table[i + 1] - table[i], BLOCKS * Epoch(i as u64).subsidy());
    }
}

#[test]
fn round_trip() {
    for i in 0..33u64 {
        let start = Epoch(i).starting_ordinal().unwrap();
        assert_eq!(Epoch::from(start), Epoch(i));
        if i > 0 {
            assert_eq!(Epoch::from(Ordinal::new(start.0 - 1)), Epoch(i - 1));
        }
    }
}

#[test]
fn from_ordinal_past_last_entry() {
    let last = Epoch(32).starting_ordinal().unwrap();
    assert_eq!(Epoch::from(last), Epoch(32));
    assert_eq!(Epoch::from(Ordinal::new(last.0 + 1)), Epoch(32));
    assert_eq!(Epoch::from(Ordinal::new(u64::MAX)), Epoch(32));
}

#[test]
fn from_ordinal_within_epoch_zero() {
    let second = Epoch(1).starting_ordinal().unwrap();
    assert_eq!(Epoch::from(Ordinal::new(second.0 - 1)), Epoch(0));
    assert_eq!(Epoch::from(Ordinal::new(1050000000000000)), Epoch(1));
}

#[test]
fn from_height_far_beyond_table() {
    assert_eq!(Epoch::from(Height(33 * BLOCKS)), Epoch(33));
    assert_eq!(Epoch::from(Height(u64::MAX)), Epoch(u64::MAX / BLOCKS));
}
