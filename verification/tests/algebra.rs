//! The tri-state signal algebra: inversion and its deliberate gap.

use robosim::generator::Generator;
use robosim::signal::{Signal, SimError};

#[test]
fn invert_swaps_the_driven_levels() {
    assert_eq!(Signal::High.invert(), Ok(Signal::Low));
    assert_eq!(Signal::Low.invert(), Ok(Signal::High));
}

#[test]
fn invert_is_an_involution_on_driven_levels() {
    for level in [Signal::High, Signal::Low] {
        assert_eq!(level.invert().unwrap().invert(), Ok(level));
    }
}

#[test]
fn invert_high_impedance_is_unsupported() {
    assert_eq!(Signal::HighZ.invert(), Err(SimError::UnsupportedOperation));
}

#[test]
fn clock_construction_rejects_high_impedance() {
    assert!(matches!(
        Generator::clock(Signal::HighZ, 10),
        Err(SimError::UnsupportedOperation)
    ));
    assert!(Generator::clock(Signal::High, 10).is_ok());
    assert!(Generator::clock(Signal::Low, 10).is_ok());
}
