//! The scheduler loop: drive a single root generator tick by tick, recording
//! every observed value into a time-ordered trace.

use vstd::prelude::*;

use crate::generator::{
    consumer_events, downstream_view, spec_invoke, ConsumerView, DownstreamEvent,
    DownstreamEventView, EventView, GenView, Generator, Invocation, InvocationView,
};
use crate::signal::{invertible, spec_invert, Signal, SimError};

verus! {

/// One recorded observation: node `label` held `signal` at absolute virtual
/// time `time`.
pub struct TraceEntry {
    pub label: String,
    pub time: u64,
    pub signal: Signal,
}

/// Mathematical image of a [`TraceEntry`].
pub struct TraceEntryView {
    pub label: Seq<char>,
    pub time: int,
    pub signal: Signal,
}

impl View for TraceEntry {
    type V = TraceEntryView;

    open spec fn view(&self) -> TraceEntryView {
        TraceEntryView { label: self.label@, time: self.time as int, signal: self.signal }
    }
}

/// The views of a trace, in order.
pub open spec fn trace_view(tr: Seq<TraceEntry>) -> Seq<TraceEntryView> {
    tr.map_values(|e: TraceEntry| e@)
}

/// The samples taken from the downstream events of one tick: each downstream
/// generator is invoked once and observed at the root's current time plus
/// the event's own delay, in event order. Fails if any downstream
/// invocation fails.
pub open spec fn spec_downstream_entries(ds: Seq<DownstreamEventView>, now: int) -> Result<
    Seq<TraceEntryView>,
    SimError,
>
    decreases ds.len(),
{
    if ds.len() == 0 {
        Ok(Seq::empty())
    } else {
        match spec_invoke(ds[0].generator) {
            Err(e) => Err(e),
            Ok(inv) => match spec_downstream_entries(ds.drop_first(), now) {
                Err(e) => Err(e),
                Ok(rest) => Ok(
                    seq![
                        TraceEntryView {
                            label: ds[0].label,
                            time: now + ds[0].delay,
                            signal: inv.signal,
                        },
                    ] + rest,
                ),
            },
        }
    }
}

/// The trace of running `g` as root for `ticks` ticks starting at virtual
/// time `now`: each tick records the root's own sample, then its downstream
/// samples, and advances time by the root's self-continuation delay alone.
/// A root without a self-continuation cannot advance time and exhausts the
/// schedule; any failed invocation aborts the run with its error.
pub open spec fn spec_run(g: GenView, label: Seq<char>, ticks: nat, now: int) -> Result<
    Seq<TraceEntryView>,
    SimError,
>
    decreases ticks,
{
    if ticks == 0 {
        Ok(Seq::empty())
    } else {
        match spec_invoke(g) {
            Err(e) => Err(e),
            Ok(inv) => match inv.self_continuation {
                None => Err(SimError::ExhaustedSchedule),
                Some(ev) => match spec_downstream_entries(inv.downstream, now) {
                    Err(e) => Err(e),
                    Ok(downs) => match spec_run(
                        ev.generator,
                        label,
                        (ticks - 1) as nat,
                        now + ev.delay,
                    ) {
                        Err(e) => Err(e),
                        Ok(rest) => Ok(
                            seq![TraceEntryView { label, time: now, signal: inv.signal }] + downs
                                + rest,
                        ),
                    },
                },
            },
        }
    }
}

proof fn lemma_trace_view_push(tr: Seq<TraceEntry>, e: TraceEntry)
    ensures
        trace_view(tr.push(e)) == trace_view(tr).push(e@),
{
    assert(trace_view(tr.push(e)) =~= trace_view(tr).push(e@));
}

/// Drive `root` for at most `ticks` ticks, labelling the root's own samples
/// with `root_label`, and return the complete trace of the run, or the error
/// that aborted it. Virtual time starts at zero and only ever advances by
/// the root's own self-continuation delays, so it is monotonically
/// non-decreasing across the run; downstream samples are observed relative
/// to it without advancing it.
pub fn run(root: Generator, root_label: String, ticks: u32) -> (r: Result<Vec<TraceEntry>, SimError>)
    ensures
        (match r {
            Ok(tr) => spec_run(root@, root_label@, ticks as nat, 0) == Ok::<
                Seq<TraceEntryView>,
                SimError,
            >(trace_view(tr@)),
            Err(e) => spec_run(root@, root_label@, ticks as nat, 0) == Err::<
                Seq<TraceEntryView>,
                SimError,
            >(e),
        }),
{
    let mut trace: Vec<TraceEntry> = Vec::new();
    let mut now: u64 = 0;
    let mut remaining: u32 = ticks;
    let mut cur = root;
    proof {
        assert(trace_view(trace@) =~= Seq::<TraceEntryView>::empty());
    }
    while remaining > 0
        invariant
            remaining <= ticks,
            now <= (ticks - remaining) * 0xffff_ffffu64,
            spec_run(root@, root_label@, ticks as nat, 0) == (match spec_run(
                cur@,
                root_label@,
                remaining as nat,
                now as int,
            ) {
                Ok(rest) => Ok::<Seq<TraceEntryView>, SimError>(trace_view(trace@) + rest),
                Err(e) => Err::<Seq<TraceEntryView>, SimError>(e),
            }),
        decreases remaining,
    {
        let ghost curv = cur@;
        let ghost now0 = now as int;
        let ghost trace0v = trace_view(trace@);
        match cur.invoke() {
            Err(e) => {
                proof {
                    assert(spec_run(curv, root_label@, remaining as nat, now0) == Err::<
                        Seq<TraceEntryView>,
                        SimError,
                    >(e));
                }
                return Err(e);
            },
            Ok(inv) => {
                let ghost invv = inv@;
                let Invocation { signal, self_continuation, downstream } = inv;
                match self_continuation {
                    None => {
                        proof {
                            assert(spec_run(curv, root_label@, remaining as nat, now0) == Err::<
                                Seq<TraceEntryView>,
                                SimError,
                            >(SimError::ExhaustedSchedule));
                        }
                        return Err(SimError::ExhaustedSchedule);
                    },
                    Some(ev) => {
                        let ghost evv = ev@;
                        let ghost root_entry = TraceEntryView {
                            label: root_label@,
                            time: now0,
                            signal,
                        };
                        let root_te = TraceEntry { label: root_label.clone(), time: now, signal };
                        proof {
                            assert(root_te@ == root_entry);
                        }
                        trace.push(root_te);
                        proof {
                            assert(trace_view(trace@) =~= trace0v + seq![root_entry]);
                        }
                        let ghost ds0 = invv.downstream;
                        let ghost trace1v = trace_view(trace@);
                        let mut downstream = downstream;
                        let mut processed: Ghost<int> = Ghost(0);
                        let ghost n_ds = ds0.len();
                        let mut downs: Ghost<Seq<TraceEntryView>> = Ghost(Seq::empty());
                        proof {
                            assert(downstream_view(downstream@) =~= ds0.skip(0));
                        }
                        while downstream.len() > 0
                            invariant
                                now == now0,
                                remaining >= 1,
                                remaining <= ticks,
                                now <= (ticks - remaining) * 0xffff_ffffu64,
                                spec_run(root@, root_label@, ticks as nat, 0) == (match spec_run(
                                    curv,
                                    root_label@,
                                    remaining as nat,
                                    now0,
                                ) {
                                    Ok(rest) => Ok::<Seq<TraceEntryView>, SimError>(
                                        trace0v + rest,
                                    ),
                                    Err(e) => Err::<Seq<TraceEntryView>, SimError>(e),
                                }),
                                spec_invoke(curv) == Ok::<InvocationView, SimError>(invv),
                                invv.self_continuation == Some(evv),
                                ds0 == invv.downstream,
                                root_entry == (TraceEntryView {
                                    label: root_label@,
                                    time: now0,
                                    signal,
                                }),
                                trace1v == trace0v + seq![root_entry],
                                processed@ >= 0,
                                processed@ + downstream@.len() == n_ds,
                                ds0.len() == n_ds,
                                downstream_view(downstream@) == ds0.skip(processed@),
                                spec_downstream_entries(ds0, now0) == (match spec_downstream_entries(
                                    ds0.skip(processed@),
                                    now0,
                                ) {
                                    Ok(rest) => Ok::<Seq<TraceEntryView>, SimError>(downs@ + rest),
                                    Err(e) => Err::<Seq<TraceEntryView>, SimError>(e),
                                }),
                                trace_view(trace@) == trace1v + downs@,
                            decreases downstream@.len(),
                        {
                            let ghost dsk = ds0.skip(processed@);
                            let ghost pre = downstream@;
                            let d = downstream.remove(0);
                            proof {
                                assert(d@ == dsk[0]);
                                pre.remove_ensures(0);
                                assert forall|j: int|
                                    0 <= j < downstream@.len() implies #[trigger] downstream_view(
                                    downstream@,
                                )[j] == ds0.skip(processed@ + 1)[j] by {
                                    assert(downstream@[j] == pre[j + 1]);
                                    assert(downstream_view(pre)[j + 1] == pre[j + 1]@);
                                    assert(ds0.skip(processed@)[j + 1] == ds0[processed
                                        as int + 1 + j]);
                                    assert(ds0.skip(processed@ + 1)[j] == ds0[processed
                                        as int + 1 + j]);
                                }
                                assert(downstream_view(downstream@) =~= ds0.skip(
                                    processed@ + 1,
                                ));
                                assert(dsk.drop_first() =~= ds0.skip(processed@ + 1));
                            }
                            let DownstreamEvent { label: d_label, delay: d_delay, generator } = d;
                            match generator.invoke() {
                                Err(e) => {
                                    proof {
                                        assert(spec_downstream_entries(dsk, now0) == Err::<
                                            Seq<TraceEntryView>,
                                            SimError,
                                        >(e));
                                        assert(spec_downstream_entries(ds0, now0) == Err::<
                                            Seq<TraceEntryView>,
                                            SimError,
                                        >(e));
                                        assert(spec_run(curv, root_label@, remaining as nat, now0)
                                            == Err::<Seq<TraceEntryView>, SimError>(e));
                                    }
                                    return Err(e);
                                },
                                Ok(d_inv) => {
                                    proof {
                                        assert(now0 + d_delay <= 0xffff_fffeu64 * 0xffff_ffffu64
                                            + 0xffff_ffffu64);
                                    }
                                    let entry = TraceEntry {
                                        label: d_label,
                                        time: now + (d_delay as u64),
                                        signal: d_inv.signal,
                                    };
                                    let ghost entryv = entry@;
                                    let ghost trace_pre = trace@;
                                    proof {
                                        lemma_trace_view_push(trace@, entry);
                                    }
                                    trace.push(entry);
                                    proof {
                                        let rest1 = spec_entries_or_empty(
                                            ds0.skip(processed@ + 1),
                                            now0,
                                        );
                                        assert(entryv == (TraceEntryView {
                                            label: dsk[0].label,
                                            time: now0 + dsk[0].delay,
                                            signal: d_inv@.signal,
                                        }));
                                        assert((downs@ + seq![entryv]) + rest1 =~= downs@ + (
                                        seq![entryv] + rest1));
                                        assert(trace_view(trace@) == trace_view(trace_pre).push(
                                            entryv,
                                        ));
                                        assert((trace1v + downs@).push(entryv) =~= trace1v + (
                                        downs@ + seq![entryv]));
                                    }
                                    downs = Ghost(downs@ + seq![entryv]);
                                    processed = Ghost(processed@ + 1);
                                },
                            }
                        }
                        proof {
                            assert(ds0.skip(processed@).len() == 0);
                            assert(spec_downstream_entries(ds0.skip(processed@), now0)
                                == Ok::<Seq<TraceEntryView>, SimError>(Seq::empty()));
                            assert(downs@ + Seq::<TraceEntryView>::empty() =~= downs@);
                            assert(spec_downstream_entries(ds0, now0) == Ok::<
                                Seq<TraceEntryView>,
                                SimError,
                            >(downs@));
                        }
                        now = now + (ev.delay as u64);
                        remaining = remaining - 1;
                        cur = ev.generator;
                        proof {
                            let nextr = spec_run(
                                evv.generator,
                                root_label@,
                                remaining as nat,
                                now as int,
                            );
                            if nextr is Ok {
                                let rest = nextr->Ok_0;
                                assert(trace0v + (seq![root_entry] + downs@ + rest) =~= (trace0v
                                    + seq![root_entry] + downs@) + rest);
                                assert(trace_view(trace@) =~= trace0v + seq![root_entry]
                                    + downs@);
                            }
                        }
                    },
                }
            },
        }
    }
    proof {
        assert(trace_view(trace@) + Seq::<TraceEntryView>::empty() =~= trace_view(trace@));
    }
    Ok(trace)
}

/// The downstream samples of one tick when every invocation succeeds, and
/// the empty sequence otherwise; a convenience for stating intermediate
/// equalities.
spec fn spec_entries_or_empty(ds: Seq<DownstreamEventView>, now: int) -> Seq<
    TraceEntryView,
> {
    match spec_downstream_entries(ds, now) {
        Ok(entries) => entries,
        Err(_) => Seq::empty(),
    }
}

/// Law: a run is a mathematical function of its construction parameters.
/// Two runs built from identical generators, identical root labels and
/// identical tick budgets produce identical traces, element for element.
pub proof fn lemma_run_deterministic(
    g1: GenView,
    g2: GenView,
    label1: Seq<char>,
    label2: Seq<char>,
    ticks1: u32,
    ticks2: u32,
)
    requires
        g1 == g2,
        label1 == label2,
        ticks1 == ticks2,
    ensures
        spec_run(g1, label1, ticks1 as nat, 0) == spec_run(g2, label2, ticks2 as nat, 0),
{
}

/// Law: when every downstream invocation of a tick succeeds, exactly one
/// sample is recorded per downstream event.
pub proof fn lemma_downstream_entries_len(ds: Seq<DownstreamEventView>, now: int)
    ensures
        (spec_downstream_entries(ds, now) matches Ok(entries) ==> entries.len() == ds.len()),
    decreases ds.len(),
{
    if ds.len() == 0 {
    } else {
        lemma_downstream_entries_len(ds.drop_first(), now);
    }
}

/// The root node's own progression: the `(time, signal)` samples that the
/// root itself contributes over `ticks` ticks starting at `now`, cut short
/// where it cannot advance.
pub open spec fn root_samples(g: GenView, ticks: nat, now: int) -> Seq<(int, Signal)>
    decreases ticks,
{
    if ticks == 0 {
        Seq::empty()
    } else {
        match spec_invoke(g) {
            Ok(inv) => match inv.self_continuation {
                Some(ev) => seq![(now, inv.signal)] + root_samples(
                    ev.generator,
                    (ticks - 1) as nat,
                    now + ev.delay,
                ),
                None => Seq::empty(),
            },
            Err(_) => Seq::empty(),
        }
    }
}

/// Law: composition preserves the wired node's own progression. For any
/// output generator, any consumer list and any tick horizon, the composite's
/// root samples — timestamps and values alike — equal the bare output's;
/// fanning out to consumers only ever adds downstream samples, it never
/// reshapes the timeline of the node being wired.
pub proof fn lemma_wire_preserves_root_samples(
    g: GenView,
    consumers: Seq<ConsumerView>,
    ticks: nat,
    now: int,
)
    ensures
        root_samples(GenView::Wired { output: Box::new(g), consumers }, ticks, now)
            == root_samples(g, ticks, now),
    decreases ticks,
{
    let wired = GenView::Wired { output: Box::new(g), consumers };
    if ticks == 0 {
    } else {
        match spec_invoke(g) {
            Ok(inv) => match inv.self_continuation {
                Some(ev) => {
                    lemma_wire_preserves_root_samples(
                        ev.generator,
                        consumers,
                        (ticks - 1) as nat,
                        now + ev.delay,
                    );
                    assert(spec_invoke(wired) matches Ok(winv)
                        && winv.signal == inv.signal
                        && winv.self_continuation == Some(
                        EventView {
                            delay: ev.delay,
                            generator: GenView::Wired { output: Box::new(ev.generator), consumers },
                        },
                    ));
                },
                None => {
                    assert(spec_invoke(wired) == Err::<InvocationView, SimError>(
                        SimError::MalformedGenerator,
                    ));
                },
            },
            Err(e) => {
                assert(spec_invoke(wired) == Err::<InvocationView, SimError>(e));
            },
        }
    }
}

/// Law: a tick budget of zero produces an empty trace, whatever the root.
pub proof fn lemma_run_zero_ticks(g: GenView, label: Seq<char>, now: int)
    ensures
        spec_run(g, label, 0, now) == Ok::<Seq<TraceEntryView>, SimError>(Seq::empty()),
{
}

/// Law: a tick budget of one produces exactly the root's own sample followed
/// by its immediate downstream samples — or the error of the single tick.
pub proof fn lemma_run_one_tick(g: GenView, label: Seq<char>, now: int)
    ensures
        spec_run(g, label, 1, now) == (match spec_invoke(g) {
            Err(e) => Err::<Seq<TraceEntryView>, SimError>(e),
            Ok(inv) => match inv.self_continuation {
                None => Err::<Seq<TraceEntryView>, SimError>(SimError::ExhaustedSchedule),
                Some(ev) => match spec_downstream_entries(inv.downstream, now) {
                    Err(e) => Err::<Seq<TraceEntryView>, SimError>(e),
                    Ok(downs) => Ok::<Seq<TraceEntryView>, SimError>(
                        seq![TraceEntryView { label, time: now, signal: inv.signal }] + downs,
                    ),
                },
            },
        }),
{
    match spec_invoke(g) {
        Err(_) => {},
        Ok(inv) => match inv.self_continuation {
            None => {},
            Some(ev) => match spec_downstream_entries(inv.downstream, now) {
                Err(_) => {},
                Ok(downs) => {
                    let head = seq![TraceEntryView { label, time: now, signal: inv.signal }];
                    assert(spec_run(ev.generator, label, 0, now + ev.delay) == Ok::<
                        Seq<TraceEntryView>,
                        SimError,
                    >(Seq::empty()));
                    assert(head + downs + Seq::<TraceEntryView>::empty() =~= head + downs);
                },
            },
        },
    }
}

/// Law: every consumer's gate fires successfully on a driven signal, so the
/// downstream samples of one tick exist and number exactly one per consumer.
pub proof fn lemma_consumer_events_entries(cs: Seq<ConsumerView>, signal: Signal, now: int)
    requires
        invertible(signal),
    ensures
        (spec_downstream_entries(consumer_events(cs, signal), now) matches Ok(entries)
            && entries.len() == cs.len()),
    decreases cs.len(),
{
    let ce = consumer_events(cs, signal);
    if cs.len() == 0 {
    } else {
        assert(ce[0].generator == (GenView::Gate { input: signal, delay: cs[0].delay }));
        lemma_consumer_events_entries(cs.drop_first(), signal, now);
        assert(ce.drop_first() =~= consumer_events(cs.drop_first(), signal));
    }
}

/// Law: success is owed whenever a clock with a driven starting level is
/// wired to any consumers and run for any budget — and each tick then
/// records one root sample plus one sample per consumer.
pub proof fn lemma_wired_clock_runs_ok(
    level: Signal,
    pulse_width: u32,
    consumers: Seq<ConsumerView>,
    label: Seq<char>,
    ticks: nat,
    now: int,
)
    requires
        invertible(level),
    ensures
        (spec_run(
            GenView::Wired {
                output: Box::new(GenView::Clock { level, pulse_width }),
                consumers,
            },
            label,
            ticks,
            now,
        ) matches Ok(tr) && tr.len() == ticks * (1 + consumers.len())),
    decreases ticks,
{
    let clock = GenView::Clock { level, pulse_width };
    let wired = GenView::Wired { output: Box::new(clock), consumers };
    if ticks == 0 {
    } else {
        let ce = consumer_events(consumers, level);
        assert(Seq::<DownstreamEventView>::empty() + ce =~= ce);
        let next = GenView::Wired {
            output: Box::new(GenView::Clock { level: spec_invert(level), pulse_width }),
            consumers,
        };
        assert(spec_invoke(clock) == Ok::<InvocationView, SimError>(
            InvocationView {
                signal: level,
                self_continuation: Some(
                    EventView {
                        delay: pulse_width,
                        generator: GenView::Clock { level: spec_invert(level), pulse_width },
                    },
                ),
                downstream: Seq::empty(),
            },
        ));
        assert(spec_invoke(wired) == Ok::<InvocationView, SimError>(
            InvocationView {
                signal: level,
                self_continuation: Some(EventView { delay: pulse_width, generator: next }),
                downstream: ce,
            },
        ));
        lemma_consumer_events_entries(consumers, level, now);
        let entries = spec_downstream_entries(ce, now)->Ok_0;
        lemma_wired_clock_runs_ok(
            spec_invert(level),
            pulse_width,
            consumers,
            label,
            (ticks - 1) as nat,
            now + pulse_width,
        );
        let rest = spec_run(next, label, (ticks - 1) as nat, now + pulse_width)->Ok_0;
        assert(spec_run(wired, label, ticks, now) == Ok::<Seq<TraceEntryView>, SimError>(
            seq![TraceEntryView { label, time: now, signal: level }] + entries + rest,
        ));
        let width = 1 + consumers.len();
        assert((ticks - 1) * width + width == ticks * width) by (nonlinear_arith)
            requires
                ticks >= 1,
        ;
    }
}

/// Law: success is owed for a bare clock with a driven starting level, for
/// any budget — the run records exactly one sample per tick.
pub proof fn lemma_clock_runs_ok(
    level: Signal,
    pulse_width: u32,
    label: Seq<char>,
    ticks: nat,
    now: int,
)
    requires
        invertible(level),
    ensures
        (spec_run(GenView::Clock { level, pulse_width }, label, ticks, now) matches Ok(tr)
            && tr.len() == ticks),
    decreases ticks,
{
    let clock = GenView::Clock { level, pulse_width };
    if ticks == 0 {
    } else {
        assert(spec_invoke(clock) == Ok::<InvocationView, SimError>(
            InvocationView {
                signal: level,
                self_continuation: Some(
                    EventView {
                        delay: pulse_width,
                        generator: GenView::Clock { level: spec_invert(level), pulse_width },
                    },
                ),
                downstream: Seq::empty(),
            },
        ));
        lemma_clock_runs_ok(
            spec_invert(level),
            pulse_width,
            label,
            (ticks - 1) as nat,
            now + pulse_width,
        );
    }
}

} // verus!
