use linstr::graph::{InstrumentGraph, InstrumentShape};
use linstr::step::StepAction;

const BLOCK: usize = 128;

enum Unit {
    Constant(f32),
    Oscillator { sampling_rate: usize, phase: f32 },
    Probe { seen: Vec<[f32; BLOCK]> },
}

struct Slot {
    unit: Unit,
    input: Vec<[f32; BLOCK]>,
    output: Vec<[f32; BLOCK]>,
}

struct Host {
    slots: Vec<Slot>,
    channels: Vec<[f32; BLOCK]>,
}

impl Host {
    fn add<const S: usize, const C: usize, const N: usize, const O: usize>(
        &mut self,
        graph: &mut InstrumentGraph<S, C, N, O>,
        unit: Unit,
        inputs: usize,
    ) -> usize {
        let shape = InstrumentShape { in_value_streams: inputs, in_control_streams: 0, out_value_streams: 1 };
        let slot = graph.add_instrument(shape);
        assert_eq!(slot, self.slots.len());
        self.slots.push(Slot { unit, input: vec![[0.0; BLOCK]; inputs], output: vec![[0.0; BLOCK]; 1] });
        slot
    }

    fn process(slot: &mut Slot) {
        match &mut slot.unit {
            Unit::Constant(value) => slot.output[0] = [*value; BLOCK],
            Unit::Oscillator { sampling_rate, phase } => {
                for i in 0..BLOCK {
                    *phase += slot.input[0][i] / *sampling_rate as f32 + slot.input[1][i];
                    while *phase >= 1.0 {
                        *phase -= 1.0;
                    }
                    while *phase < 0.0 {
                        *phase += 1.0;
                    }
                    slot.output[0][i] = libm::sinf(2.0 * core::f32::consts::PI * *phase);
                }
            }
            Unit::Probe { seen } => {
                seen.push(slot.input[0]);
                slot.output[0] = slot.input[0];
            }
        }
        for stream in slot.input.iter_mut() {
            *stream = [0.0; BLOCK];
        }
    }

    fn run(&mut self, actions: &[StepAction]) {
        for action in actions {
            match *action {
                StepAction::ClearOutput => {
                    for channel in self.channels.iter_mut() {
                        *channel = [0.0; BLOCK];
                    }
                }
                StepAction::FetchControl { .. } | StepAction::FeedControl { .. } => {}
                StepAction::FeedValue { source, source_stream, destination, destination_stream } => {
                    let block = self.slots[source].output[source_stream];
                    for k in 0..BLOCK {
                        self.slots[destination].input[destination_stream][k] += block[k];
                    }
                }
                StepAction::Process { instrument } => Host::process(&mut self.slots[instrument]),
                StepAction::Accumulate { channel, source, source_stream } => {
                    let block = self.slots[source].output[source_stream];
                    for k in 0..BLOCK {
                        self.channels[channel][k] += block[k];
                    }
                }
            }
        }
    }
}

#[test]
fn constant_reaches_the_output_channel() {
    let mut graph: InstrumentGraph<4, 1, 4, 1> = InstrumentGraph::new();
    let mut host = Host { slots: Vec::new(), channels: vec![[0.0; BLOCK]; 1] };
    let constant = host.add(&mut graph, Unit::Constant(5.0), 0);
    graph.connect_destination(0, constant, 0);
    assert!(graph.check_wiring());
    host.run(&graph.process_next());
    assert_eq!(host.channels[0], [5.0; BLOCK]);
    host.run(&graph.process_next());
    assert_eq!(host.channels[0], [5.0; BLOCK]);
}

#[test]
fn output_channel_sums_its_sources() {
    let mut graph: InstrumentGraph<4, 1, 4, 2> = InstrumentGraph::new();
    let mut host = Host { slots: Vec::new(), channels: vec![[0.0; BLOCK]; 2] };
    let a = host.add(&mut graph, Unit::Constant(5.0), 0);
    let b = host.add(&mut graph, Unit::Constant(0.25), 0);
    graph.connect_destination(1, a, 0);
    graph.connect_destination(1, b, 0);
    assert!(graph.check_wiring());
    host.run(&graph.process_next());
    assert_eq!(host.channels[0], [0.0; BLOCK]);
    assert_eq!(host.channels[1], [5.25; BLOCK]);
}

#[test]
fn value_feed_is_additive_and_cleared_after_the_step() {
    let mut graph: InstrumentGraph<4, 1, 4, 1> = InstrumentGraph::new();
    let mut host = Host { slots: Vec::new(), channels: vec![[0.0; BLOCK]; 1] };
    let probe = host.add(&mut graph, Unit::Probe { seen: Vec::new() }, 1);
    let a = host.add(&mut graph, Unit::Constant(1.0), 0);
    let b = host.add(&mut graph, Unit::Constant(1.0), 0);
    graph.connect_value_stream(a, 0, probe, 0);
    graph.connect_value_stream(b, 0, probe, 0);
    graph.connect_destination(0, probe, 0);
    assert!(graph.check_wiring());
    assert_eq!(graph.get_instrument_process_order(), [1, 2, 0, usize::MAX]);
    host.run(&graph.process_next());
    match &host.slots[probe].unit {
        Unit::Probe { seen } => assert_eq!(seen, &vec![[2.0; BLOCK]]),
        _ => unreachable!(),
    }
    assert_eq!(host.slots[probe].input[0], [0.0; BLOCK]);
    assert_eq!(host.channels[0], [2.0; BLOCK]);
}

#[test]
fn constant_drives_the_oscillator() {
    let mut graph: InstrumentGraph<4, 1, 4, 1> = InstrumentGraph::new();
    let mut host = Host { slots: Vec::new(), channels: vec![[0.0; BLOCK]; 1] };
    let oscillator = host.add(&mut graph, Unit::Oscillator { sampling_rate: 44100, phase: 0.0 }, 2);
    let constant = host.add(&mut graph, Unit::Constant(440.0), 0);
    graph.connect_value_stream(constant, 0, oscillator, 0);
    graph.connect_destination(0, oscillator, 0);
    assert!(graph.check_wiring());
    host.run(&graph.process_next());

    let mut phase: f32 = 0.0;
    for k in 0..BLOCK {
        phase += 440.0 / 44100.0;
        if phase >= 1.0 {
            phase -= 1.0;
        }
        assert!((0.0..1.0).contains(&phase));
        let expected = libm::sinf(2.0 * core::f32::consts::PI * phase);
        assert!((host.channels[0][k] - expected).abs() < 1e-6);
    }
    assert!((host.channels[0][0] - 0.062648326).abs() < 1e-5);
}
