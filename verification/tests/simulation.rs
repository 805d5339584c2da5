//! End-to-end runs of the simulator: clocks, wiring, scheduling, traces.

use robosim::generator::{wire1, Consumer, Generator};
use robosim::scheduler::{run, TraceEntry};
use robosim::signal::{Signal, SimError};

fn clock(level: Signal, pulse_width: u32) -> Generator {
    match Generator::clock(level, pulse_width) {
        Ok(g) => g,
        Err(e) => panic!("clock construction failed: {:?}", e),
    }
}

fn consumer(label: &str, delay: u32) -> Consumer {
    Consumer { label: label.to_string(), delay }
}

fn entry_eq(entry: &TraceEntry, label: &str, time: u64, signal: Signal) {
    assert_eq!(entry.label, label);
    assert_eq!(entry.time, time);
    assert_eq!(entry.signal, signal);
}

#[test]
fn clock_trace_four_ticks() {
    let trace = run(clock(Signal::High, 10), "clock".to_string(), 4).unwrap();

    assert_eq!(trace.len(), 4);
    entry_eq(&trace[0], "clock", 0, Signal::High);
    entry_eq(&trace[1], "clock", 10, Signal::Low);
    entry_eq(&trace[2], "clock", 20, Signal::High);
    entry_eq(&trace[3], "clock", 30, Signal::Low);
}

#[test]
fn clock_with_inverter_four_ticks() {
    let root = wire1(clock(Signal::High, 10), vec![consumer("inv", 5)]);
    let trace = run(root, "clock".to_string(), 4).unwrap();

    assert_eq!(trace.len(), 8);
    entry_eq(&trace[0], "clock", 0, Signal::High);
    entry_eq(&trace[1], "inv", 5, Signal::Low);
    entry_eq(&trace[2], "clock", 10, Signal::Low);
    entry_eq(&trace[3], "inv", 15, Signal::High);
    entry_eq(&trace[4], "clock", 20, Signal::High);
    entry_eq(&trace[5], "inv", 25, Signal::Low);
    entry_eq(&trace[6], "clock", 30, Signal::Low);
    entry_eq(&trace[7], "inv", 35, Signal::High);
}

#[test]
fn clock_inverter_femtosecond_scale() {
    let root = wire1(
        clock(Signal::High, 12_500_000),
        vec![consumer("inv", 6_000_000)],
    );
    let trace = run(root, "clock".to_string(), 5).unwrap();

    assert_eq!(trace.len(), 10);
    entry_eq(&trace[0], "clock", 0, Signal::High);
    entry_eq(&trace[1], "inv", 6_000_000, Signal::Low);
    entry_eq(&trace[2], "clock", 12_500_000, Signal::Low);
    entry_eq(&trace[3], "inv", 18_500_000, Signal::High);
    entry_eq(&trace[4], "clock", 25_000_000, Signal::High);
    entry_eq(&trace[5], "inv", 31_000_000, Signal::Low);
    entry_eq(&trace[6], "clock", 37_500_000, Signal::Low);
    entry_eq(&trace[7], "inv", 43_500_000, Signal::High);
    entry_eq(&trace[8], "clock", 50_000_000, Signal::High);
    entry_eq(&trace[9], "inv", 56_000_000, Signal::Low);
}

#[test]
fn identical_runs_produce_identical_traces() {
    let build = || {
        wire1(
            clock(Signal::Low, 7),
            vec![consumer("a", 2), consumer("b", 3)],
        )
    };
    let first = run(build(), "clock".to_string(), 6).unwrap();
    let second = run(build(), "clock".to_string(), 6).unwrap();

    assert_eq!(first.len(), second.len());
    for (x, y) in first.iter().zip(second.iter()) {
        assert_eq!(x.label, y.label);
        assert_eq!(x.time, y.time);
        assert_eq!(x.signal, y.signal);
    }
}

#[test]
fn fanout_preserves_root_progression() {
    let ticks = 4;
    let runs = [
        run(wire1(clock(Signal::High, 10), vec![]), "clock".to_string(), ticks).unwrap(),
        run(
            wire1(clock(Signal::High, 10), vec![consumer("g0", 5)]),
            "clock".to_string(),
            ticks,
        )
        .unwrap(),
        run(
            wire1(
                clock(Signal::High, 10),
                vec![consumer("g0", 5), consumer("g1", 6), consumer("g2", 7)],
            ),
            "clock".to_string(),
            ticks,
        )
        .unwrap(),
    ];

    for (n, trace) in runs.iter().enumerate() {
        let roots: Vec<&TraceEntry> = trace.iter().filter(|e| e.label == "clock").collect();
        assert_eq!(roots.len(), ticks as usize);
        assert_eq!(trace.len() - roots.len(), n_downstream(n) * ticks as usize);
        for (k, e) in roots.iter().enumerate() {
            assert_eq!(e.time, 10 * k as u64);
            let expected = if k % 2 == 0 { Signal::High } else { Signal::Low };
            assert_eq!(e.signal, expected);
        }
    }
}

fn n_downstream(run_index: usize) -> usize {
    match run_index {
        0 => 0,
        1 => 1,
        _ => 3,
    }
}

#[test]
fn nested_wiring_fans_out_both_layers() {
    let inner = wire1(clock(Signal::High, 10), vec![consumer("a", 5)]);
    let root = wire1(inner, vec![consumer("b", 7)]);
    let trace = run(root, "clock".to_string(), 2).unwrap();

    assert_eq!(trace.len(), 6);
    entry_eq(&trace[0], "clock", 0, Signal::High);
    entry_eq(&trace[1], "a", 5, Signal::Low);
    entry_eq(&trace[2], "b", 7, Signal::Low);
    entry_eq(&trace[3], "clock", 10, Signal::Low);
    entry_eq(&trace[4], "a", 15, Signal::High);
    entry_eq(&trace[5], "b", 17, Signal::High);
}

#[test]
fn zero_tick_budget_produces_empty_trace() {
    let root = wire1(clock(Signal::High, 10), vec![consumer("inv", 5)]);
    let trace = run(root, "clock".to_string(), 0).unwrap();
    assert!(trace.is_empty());
}

#[test]
fn one_tick_budget_produces_one_root_sample() {
    let trace = run(clock(Signal::Low, 10), "clock".to_string(), 1).unwrap();
    assert_eq!(trace.len(), 1);
    entry_eq(&trace[0], "clock", 0, Signal::Low);
}

#[test]
fn one_tick_budget_includes_immediate_downstream_samples() {
    let root = wire1(clock(Signal::Low, 10), vec![consumer("inv", 4)]);
    let trace = run(root, "clock".to_string(), 1).unwrap();
    assert_eq!(trace.len(), 2);
    entry_eq(&trace[0], "clock", 0, Signal::Low);
    entry_eq(&trace[1], "inv", 4, Signal::High);
}

#[test]
fn terminal_gate_as_root_exhausts_schedule() {
    let root = Generator::gate(Signal::High, 5);
    assert!(matches!(
        run(root, "gate".to_string(), 1),
        Err(SimError::ExhaustedSchedule)
    ));
}

#[test]
fn wiring_a_terminal_gate_is_malformed() {
    let root = wire1(Generator::gate(Signal::High, 5), vec![]);
    assert!(matches!(
        run(root, "gate".to_string(), 1),
        Err(SimError::MalformedGenerator)
    ));
}

#[test]
fn high_impedance_gate_input_aborts_the_run() {
    let root = Generator::gate(Signal::HighZ, 5);
    assert!(matches!(
        run(root, "gate".to_string(), 1),
        Err(SimError::UnsupportedOperation)
    ));
}
