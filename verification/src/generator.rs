//! Single-use generators — one instant of a node's timeline — and the wiring
//! combinator that fans a node's output out to downstream consumers.

use vstd::prelude::*;

use crate::signal::{invertible, spec_invert, Signal, SimError};

verus! {

/// A downstream consumer of a node's output. Each time the wired node
/// produces a value, the consumer schedules a fresh inverter gate over that
/// value, firing after its fixed propagation `delay`. The `label` names the
/// consumer in the trace and plays no part in scheduling.
pub struct Consumer {
    pub label: String,
    pub delay: u32,
}

/// Mathematical image of a [`Consumer`].
pub struct ConsumerView {
    pub label: Seq<char>,
    pub delay: u32,
}

impl View for Consumer {
    type V = ConsumerView;

    open spec fn view(&self) -> ConsumerView {
        ConsumerView { label: self.label@, delay: self.delay }
    }
}

/// The views of a consumer list, in order.
pub open spec fn consumers_view(cs: Seq<Consumer>) -> Seq<ConsumerView> {
    cs.map_values(|c: Consumer| c@)
}

/// A single-use node of the circuit: one instant of the node's timeline.
///
/// Invoking a generator consumes it by ownership and yields the node's
/// current signal plus the events it schedules; the node's later instants
/// exist only as the fresh generators inside those events. Ownership, not a
/// runtime flag, is what makes a second invocation of the same instant
/// impossible, so the type deliberately implements neither `Clone` nor
/// `Copy`.
pub enum Generator {
    /// An ideal square clock: holds `level` now, and schedules its own
    /// complemented successor after `pulse_width` time units, indefinitely.
    Clock { level: Signal, pulse_width: u32 },
    /// A terminal inverter gate: produces the complement of the input it
    /// captured and schedules nothing further. `delay` records its own
    /// propagation delay.
    Gate { input: Signal, delay: u32 },
    /// A wired node: the output generator's own progression, with its value
    /// fanned out to `consumers` at every instant.
    Wired { output: Box<Generator>, consumers: Vec<Consumer> },
}

/// Mathematical image of a [`Generator`].
pub enum GenView {
    Clock { level: Signal, pulse_width: u32 },
    Gate { input: Signal, delay: u32 },
    Wired { output: Box<GenView>, consumers: Seq<ConsumerView> },
}

pub open spec fn gen_view(g: Generator) -> GenView
    decreases g,
{
    match g {
        Generator::Clock { level, pulse_width } => GenView::Clock { level, pulse_width },
        Generator::Gate { input, delay } => GenView::Gate { input, delay },
        Generator::Wired { output, consumers } => GenView::Wired {
            output: Box::new(gen_view(*output)),
            consumers: consumers_view(consumers@),
        },
    }
}

impl View for Generator {
    type V = GenView;

    open spec fn view(&self) -> GenView {
        gen_view(*self)
    }
}

/// A scheduled future instant: after `delay` time units, `generator` fires.
pub struct ScheduledEvent {
    pub delay: u32,
    pub generator: Generator,
}

/// Mathematical image of a [`ScheduledEvent`].
pub struct EventView {
    pub delay: u32,
    pub generator: GenView,
}

impl View for ScheduledEvent {
    type V = EventView;

    open spec fn view(&self) -> EventView {
        EventView { delay: self.delay, generator: self.generator@ }
    }
}

/// A scheduled instant of a downstream consumer, tagged with the consumer's
/// label so the trace can attribute the sample.
pub struct DownstreamEvent {
    pub label: String,
    pub delay: u32,
    pub generator: Generator,
}

/// Mathematical image of a [`DownstreamEvent`].
pub struct DownstreamEventView {
    pub label: Seq<char>,
    pub delay: u32,
    pub generator: GenView,
}

impl View for DownstreamEvent {
    type V = DownstreamEventView;

    open spec fn view(&self) -> DownstreamEventView {
        DownstreamEventView {
            label: self.label@,
            delay: self.delay,
            generator: self.generator@,
        }
    }
}

/// The views of a downstream event list, in order.
pub open spec fn downstream_view(ds: Seq<DownstreamEvent>) -> Seq<DownstreamEventView> {
    ds.map_values(|d: DownstreamEvent| d@)
}

/// What one invocation of a generator yields: the node's current signal, the
/// node's own next instant (absent only for a terminal node), and the events
/// fanned out to downstream consumers. The self-continuation is kept apart
/// from the downstream events structurally, never by position in a list.
pub struct Invocation {
    pub signal: Signal,
    pub self_continuation: Option<ScheduledEvent>,
    pub downstream: Vec<DownstreamEvent>,
}

/// Mathematical image of an [`Invocation`].
pub struct InvocationView {
    pub signal: Signal,
    pub self_continuation: Option<EventView>,
    pub downstream: Seq<DownstreamEventView>,
}

impl View for Invocation {
    type V = InvocationView;

    open spec fn view(&self) -> InvocationView {
        InvocationView {
            signal: self.signal,
            self_continuation: match self.self_continuation {
                Some(ev) => Some(ev@),
                None => None,
            },
            downstream: downstream_view(self.downstream@),
        }
    }
}

/// The downstream events a consumer list schedules for one produced signal:
/// each consumer wraps a fresh inverter gate over that signal in its own
/// delay, in consumer order.
pub open spec fn consumer_events(cs: Seq<ConsumerView>, signal: Signal) -> Seq<DownstreamEventView> {
    cs.map_values(
        |c: ConsumerView|
            DownstreamEventView {
                label: c.label,
                delay: c.delay,
                generator: GenView::Gate { input: signal, delay: c.delay },
            },
    )
}

/// What invoking a generator yields, as a mathematical function of its shape.
///
/// A clock yields its level and its complemented successor; a gate yields the
/// complement of its captured input and no successor; a wired node yields the
/// output's own invocation with the re-wired successor and the consumers'
/// gates appended after any downstream events the output produced itself.
/// Inverting a high-impedance level fails, and a wired output without exactly
/// one self-continuation is malformed.
pub open spec fn spec_invoke(g: GenView) -> Result<InvocationView, SimError>
    decreases g,
{
    match g {
        GenView::Clock { level, pulse_width } => {
            if invertible(level) {
                Ok(
                    InvocationView {
                        signal: level,
                        self_continuation: Some(
                            EventView {
                                delay: pulse_width,
                                generator: GenView::Clock { level: spec_invert(level), pulse_width },
                            },
                        ),
                        downstream: Seq::empty(),
                    },
                )
            } else {
                Err(SimError::UnsupportedOperation)
            }
        },
        GenView::Gate { input, delay: _ } => {
            if invertible(input) {
                Ok(
                    InvocationView {
                        signal: spec_invert(input),
                        self_continuation: None,
                        downstream: Seq::empty(),
                    },
                )
            } else {
                Err(SimError::UnsupportedOperation)
            }
        },
        GenView::Wired { output, consumers } => match spec_invoke(*output) {
            Err(e) => Err(e),
            Ok(inner) => match inner.self_continuation {
                None => Err(SimError::MalformedGenerator),
                Some(ev) => Ok(
                    InvocationView {
                        signal: inner.signal,
                        self_continuation: Some(
                            EventView {
                                delay: ev.delay,
                                generator: GenView::Wired {
                                    output: Box::new(ev.generator),
                                    consumers,
                                },
                            },
                        ),
                        downstream: inner.downstream + consumer_events(consumers, inner.signal),
                    },
                ),
            },
        },
    }
}

impl Generator {
    /// Build an ideal square clock that starts at `level` at time zero and
    /// toggles every `pulse_width` time units. A high-impedance starting
    /// level has no complement to toggle to, so it is rejected up front.
    /// Construction only captures the parameters; no work happens until the
    /// clock is invoked.
    pub fn clock(level: Signal, pulse_width: u32) -> (r: Result<Generator, SimError>)
        ensures
            invertible(level) ==> (r matches Ok(g) && g@ == (GenView::Clock {
                level,
                pulse_width,
            })),
            !invertible(level) ==> r == Err::<Generator, SimError>(SimError::UnsupportedOperation),
    {
        match level {
            Signal::HighZ => Err(SimError::UnsupportedOperation),
            _ => Ok(Generator::Clock { level, pulse_width }),
        }
    }

    /// Build a terminal inverter gate over a captured input. Construction
    /// only captures the parameters; computing the complement, and failing
    /// on a high-impedance input, both wait until invocation.
    pub fn gate(input: Signal, delay: u32) -> (r: Generator)
        ensures
            r@ == (GenView::Gate { input, delay }),
    {
        Generator::Gate { input, delay }
    }

    /// Consume this instant of the node, yielding its current signal and the
    /// events it schedules. Taking `self` by value is what enforces single
    /// use: the successor instants can only be taken from the returned
    /// events, and the consumed generator is gone.
    pub fn invoke(self) -> (r: Result<Invocation, SimError>)
        ensures
            (match r {
                Ok(inv) => spec_invoke(self@) == Ok::<InvocationView, SimError>(inv@),
                Err(e) => spec_invoke(self@) == Err::<InvocationView, SimError>(e),
            }),
        decreases self,
    {
        let ghost sv = self@;
        match self {
            Generator::Clock { level, pulse_width } => match level.invert() {
                Ok(next_level) => {
                    let result = Invocation {
                        signal: level,
                        self_continuation: Some(
                            ScheduledEvent {
                                delay: pulse_width,
                                generator: Generator::Clock { level: next_level, pulse_width },
                            },
                        ),
                        downstream: Vec::new(),
                    };
                    proof {
                        assert(result@.downstream =~= Seq::<DownstreamEventView>::empty());
                        assert(spec_invoke(sv) == Ok::<InvocationView, SimError>(result@));
                    }
                    Ok(result)
                },
                Err(e) => Err(e),
            },
            Generator::Gate { input, delay: _ } => match input.invert() {
                Ok(out) => {
                    let result = Invocation {
                        signal: out,
                        self_continuation: None,
                        downstream: Vec::new(),
                    };
                    proof {
                        assert(result@.downstream =~= Seq::<DownstreamEventView>::empty());
                        assert(spec_invoke(sv) == Ok::<InvocationView, SimError>(result@));
                    }
                    Ok(result)
                },
                Err(e) => Err(e),
            },
            Generator::Wired { output, consumers } => {
                let ghost ov = gen_view(*output);
                let ghost cs = consumers_view(consumers@);
                proof {
                    assert(sv == (GenView::Wired { output: Box::new(ov), consumers: cs }));
                }
                match (*output).invoke() {
                    Err(e) => Err(e),
                    Ok(inner) => {
                        let ghost innerv = inner@;
                        let Invocation { signal, self_continuation, downstream } = inner;
                        match self_continuation {
                            None => Err(SimError::MalformedGenerator),
                            Some(ev) => {
                                let mut downstream = downstream;
                                let ghost base = downstream_view(downstream@);
                                let ghost ce = consumer_events(cs, signal);
                                let mut i: usize = 0;
                                while i < consumers.len()
                                    invariant
                                        i <= consumers.len(),
                                        cs == consumers_view(consumers@),
                                        ce == consumer_events(cs, signal),
                                        downstream_view(downstream@) == base + ce.take(i as int),
                                    decreases consumers.len() - i,
                                {
                                    let ghost old_ds = downstream@;
                                    let c = &consumers[i];
                                    let event = DownstreamEvent {
                                        label: c.label.clone(),
                                        delay: c.delay,
                                        generator: Generator::Gate {
                                            input: signal,
                                            delay: c.delay,
                                        },
                                    };
                                    downstream.push(event);
                                    proof {
                                        assert(c@ == cs[i as int]);
                                        assert(event@ == ce[i as int]);
                                        assert(downstream@ == old_ds.push(event));
                                        assert(downstream_view(old_ds.push(event)) =~= downstream_view(
                                            old_ds,
                                        ).push(event@));
                                        assert(ce.take(i as int).push(ce[i as int]) =~= ce.take(
                                            i + 1,
                                        ));
                                        assert(downstream_view(downstream@) =~= base + ce.take(
                                            i + 1,
                                        ));
                                    }
                                    i += 1;
                                }
                                proof {
                                    assert(ce.take(i as int) =~= ce);
                                    assert(downstream_view(downstream@) == base + ce);
                                    assert(base == innerv.downstream);
                                }
                                let result = Invocation {
                                    signal,
                                    self_continuation: Some(
                                        ScheduledEvent {
                                            delay: ev.delay,
                                            generator: Generator::Wired {
                                                output: Box::new(ev.generator),
                                                consumers,
                                            },
                                        },
                                    ),
                                    downstream,
                                };
                                proof {
                                    assert(spec_invoke(ov) == Ok::<InvocationView, SimError>(
                                        innerv,
                                    ));
                                    assert(innerv.self_continuation == Some(ev@));
                                    assert(result@.self_continuation == Some(
                                        EventView {
                                            delay: ev.delay as u32,
                                            generator: GenView::Wired {
                                                output: Box::new(ev@.generator),
                                                consumers: cs,
                                            },
                                        },
                                    ));
                                    assert(spec_invoke(sv) == Ok::<InvocationView, SimError>(
                                        result@,
                                    ));
                                }
                                Ok(result)
                            },
                        }
                    },
                }
            },
        }
    }
}

/// Wire a node's output into the given downstream inputs, forming a node of
/// the wiring graph: every instant of `output` keeps its own progression and
/// is additionally fanned out to each input consumer. Construction is lazy —
/// nothing is invoked until the composite itself is.
pub fn wire1(output: Generator, inputs: Vec<Consumer>) -> (r: Generator)
    ensures
        r@ == (GenView::Wired {
            output: Box::new(output@),
            consumers: consumers_view(inputs@),
        }),
{
    Generator::Wired { output: Box::new(output), consumers: inputs }
}

} // verus!
