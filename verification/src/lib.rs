//! Discrete-event simulation of digital logic signals over virtual time.
//!
//! A node of the circuit (a clock, a gate) is a single-use generator:
//! invoking it yields the node's current signal together with the events it
//! schedules for later virtual instants. Wiring fans a node's output out to
//! downstream consumers, and the scheduler replays a root generator tick by
//! tick, recording every observed value into a time-ordered trace.

pub mod generator;
pub mod scheduler;
pub mod signal;
