//! The tri-state signal algebra and the simulation error taxonomy.

use vstd::prelude::*;

verus! {

/// A tri-state digital logic level: driven high, driven low, or
/// high-impedance (undriven).
#[derive(Clone, Copy, Debug, PartialEq, Eq, Structural)]
pub enum Signal {
    High,
    Low,
    HighZ,
}

/// Why a simulation could not proceed. None of these are recoverable: each
/// signals a malformed model, and a run aborts as soon as one arises.
#[derive(Clone, Copy, Debug, PartialEq, Eq, Structural)]
pub enum SimError {
    /// The signal algebra defines no result for the requested operation,
    /// such as inverting a high-impedance line.
    UnsupportedOperation,
    /// A wired generator's schedule broke the "exactly one self-continuation"
    /// contract, so composition cannot advance it safely.
    MalformedGenerator,
    /// A self-continuation was needed to advance virtual time, but the root
    /// generator is terminal and offered none.
    ExhaustedSchedule,
}

/// Whether the algebra defines a complement for this level: only the two
/// driven levels have one.
pub open spec fn invertible(s: Signal) -> bool {
    s is High || s is Low
}

/// The complement of a driven level. On `HighZ` the algebra is deliberately
/// left undefined; this total spec function maps that case to itself, and the
/// executable algebra refuses it instead of returning a value.
pub open spec fn spec_invert(s: Signal) -> Signal {
    match s {
        Signal::High => Signal::Low,
        Signal::Low => Signal::High,
        Signal::HighZ => Signal::HighZ,
    }
}

impl Signal {
    /// Unary negation over the tri-state domain: `High` and `Low` swap, and a
    /// high-impedance line has no defined complement, so inverting it fails
    /// rather than silently defaulting.
    pub fn invert(&self) -> (r: Result<Signal, SimError>)
        ensures
            invertible(*self) ==> r == Ok::<Signal, SimError>(spec_invert(*self)),
            !invertible(*self) ==> r == Err::<Signal, SimError>(SimError::UnsupportedOperation),
    {
        match self {
            Signal::High => Ok(Signal::Low),
            Signal::Low => Ok(Signal::High),
            Signal::HighZ => Err(SimError::UnsupportedOperation),
        }
    }
}

} // verus!
