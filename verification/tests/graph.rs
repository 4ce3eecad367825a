use linstr::graph::{
    ControlStreamConnection, DestinationConnection, InstrumentGraph, InstrumentShape,
};
use linstr::step::StepAction;

fn shape(inputs: usize, controls: usize, outputs: usize) -> InstrumentShape {
    InstrumentShape {
        in_value_streams: inputs,
        in_control_streams: controls,
        out_value_streams: outputs,
    }
}

fn position(order: &[usize], slot: usize) -> usize {
    let mut found = usize::MAX;
    let mut hits = 0;
    for (k, entry) in order.iter().enumerate() {
        if *entry == slot {
            found = k;
            hits += 1;
        }
    }
    assert_eq!(hits, 1, "slot {} stands {} times in the order", slot, hits);
    found
}

#[test]
fn new_graph_is_empty() {
    let graph: InstrumentGraph<3, 2, 2, 1> = InstrumentGraph::new();
    assert!(graph.instruments.iter().all(|slot| slot.is_none()));
    assert!(graph.control_sources.iter().all(|taken| !taken));
    assert!(graph.instruments_control_sources.iter().all(|slot| slot.is_none()));
    assert!(graph.value_stream_connections.iter().all(|list| list.iter().all(|c| c.is_none())));
    assert!(graph.destination_connections.iter().all(|list| list.iter().all(|c| c.is_none())));
    assert_eq!(graph.free_instrument_slot(), Some(0));
    assert_eq!(graph.free_control_source_slot(), Some(0));
}

#[test]
fn instruments_take_the_first_free_slot() {
    let mut graph: InstrumentGraph<3, 2, 2, 1> = InstrumentGraph::new();
    assert_eq!(graph.add_instrument(shape(0, 0, 1)), 0);
    assert_eq!(graph.add_instrument(shape(2, 0, 1)), 1);
    assert_eq!(graph.add_instrument(shape(1, 1, 1)), 2);
    assert_eq!(graph.free_instrument_slot(), None);
    assert_eq!(graph.instruments[1].unwrap().in_value_streams, 2);
    assert_eq!(graph.instruments[2].unwrap().in_control_streams, 1);
    assert!(graph.is_filled(2));
    assert!(!graph.is_filled(3));
}

#[test]
fn control_sources_take_the_first_free_slot() {
    let mut graph: InstrumentGraph<1, 2, 2, 1> = InstrumentGraph::new();
    assert_eq!(graph.add_control_source(), 0);
    assert_eq!(graph.free_control_source_slot(), Some(1));
    assert_eq!(graph.add_control_source(), 1);
    assert_eq!(graph.free_control_source_slot(), None);
}

#[test]
fn control_binding_is_overwritten() {
    let mut graph: InstrumentGraph<2, 2, 2, 1> = InstrumentGraph::new();
    graph.connect_control_source(0, 1);
    graph.connect_control_source(1, 1);
    assert_eq!(graph.instruments_control_sources[1].unwrap().source_index, 1);
    assert!(graph.instruments_control_sources[0].is_none());
}

#[test]
fn value_connections_fill_the_list_in_order() {
    let mut graph: InstrumentGraph<3, 1, 2, 1> = InstrumentGraph::new();
    assert_eq!(graph.free_value_connection(2), Some(0));
    assert_eq!(graph.connect_value_stream(0, 0, 2, 1), 0);
    assert_eq!(graph.connect_value_stream(1, 3, 2, 1), 1);
    assert_eq!(graph.free_value_connection(2), None);
    let first = graph.value_stream_connections[2][0].unwrap();
    let second = graph.value_stream_connections[2][1].unwrap();
    assert_eq!((first.source_index, first.source_stream_index, first.destination_stream_index), (0, 0, 1));
    assert_eq!((second.source_index, second.source_stream_index, second.destination_stream_index), (1, 3, 1));
    assert!(graph.value_stream_connections[0][0].is_none());
}

#[test]
fn destination_connections_fill_the_list_in_order() {
    let mut graph: InstrumentGraph<3, 1, 2, 2> = InstrumentGraph::new();
    assert_eq!(graph.connect_destination(1, 2, 0), 0);
    assert_eq!(graph.connect_destination(1, 0, 4), 1);
    assert_eq!(graph.free_destination_connection(1), None);
    assert_eq!(graph.free_destination_connection(0), Some(0));
    let second = graph.destination_connections[1][1].unwrap();
    assert_eq!((second.source_index, second.source_stream_index), (0, 4));
}

#[test]
fn reverse_chain_is_ordered_from_its_far_end() {
    let mut graph: InstrumentGraph<4, 1, 2, 1> = InstrumentGraph::new();
    for _ in 0..4 {
        graph.add_instrument(shape(1, 0, 1));
    }
    graph.connect_value_stream(3, 0, 2, 0);
    graph.connect_value_stream(2, 0, 1, 0);
    graph.connect_value_stream(1, 0, 0, 0);
    assert_eq!(graph.get_instrument_process_order(), [3, 2, 1, 0]);
    assert_eq!(graph.find_instrument_process_order(), Some([3, 2, 1, 0]));
}

#[test]
fn forward_chain_is_ordered_in_one_scan() {
    let mut graph: InstrumentGraph<3, 1, 2, 1> = InstrumentGraph::new();
    for _ in 0..3 {
        graph.add_instrument(shape(1, 0, 1));
    }
    graph.connect_value_stream(0, 0, 1, 0);
    graph.connect_value_stream(1, 0, 2, 0);
    assert_eq!(graph.get_instrument_process_order(), [0, 1, 2]);
}

#[test]
fn empty_slots_are_left_out_of_the_order() {
    let mut graph: InstrumentGraph<4, 1, 2, 1> = InstrumentGraph::new();
    graph.add_instrument(shape(1, 0, 1));
    graph.add_instrument(shape(0, 0, 1));
    graph.connect_value_stream(1, 0, 0, 0);
    graph.connect_value_stream(3, 0, 1, 0);
    assert_eq!(graph.get_instrument_process_order(), [1, 0, usize::MAX, usize::MAX]);
}

#[test]
fn empty_graph_has_an_empty_order() {
    let graph: InstrumentGraph<2, 1, 1, 1> = InstrumentGraph::new();
    assert_eq!(graph.find_instrument_process_order(), Some([usize::MAX, usize::MAX]));
}

#[test]
fn cycle_is_reported() {
    let mut graph: InstrumentGraph<3, 1, 2, 1> = InstrumentGraph::new();
    for _ in 0..3 {
        graph.add_instrument(shape(1, 0, 1));
    }
    graph.connect_value_stream(0, 0, 1, 0);
    graph.connect_value_stream(1, 0, 2, 0);
    graph.connect_value_stream(2, 0, 1, 0);
    assert_eq!(graph.find_instrument_process_order(), None);
}

#[test]
fn self_loop_is_reported() {
    let mut graph: InstrumentGraph<1, 1, 1, 1> = InstrumentGraph::new();
    graph.add_instrument(shape(1, 0, 1));
    graph.connect_value_stream(0, 0, 0, 0);
    assert_eq!(graph.find_instrument_process_order(), None);
}

#[test]
fn order_is_topological_on_a_diamond() {
    let mut graph: InstrumentGraph<5, 1, 4, 1> = InstrumentGraph::new();
    for _ in 0..4 {
        graph.add_instrument(shape(2, 0, 1));
    }
    let edges = [(3, 1), (3, 2), (1, 0), (2, 0)];
    for (source, destination) in edges {
        graph.connect_value_stream(source, 0, destination, 0);
    }
    let order = graph.get_instrument_process_order();
    for slot in 0..4 {
        assert!(position(&order, slot) < 4);
    }
    assert_eq!(order[4], usize::MAX);
    for (source, destination) in edges {
        assert!(position(&order, source) < position(&order, destination));
    }
    assert_eq!(order, [3, 1, 2, 0, usize::MAX]);
}

#[test]
fn step_runs_sources_before_their_destinations() {
    let mut graph: InstrumentGraph<3, 2, 2, 1> = InstrumentGraph::new();
    let envelope = graph.add_instrument(shape(0, 2, 1));
    let constant = graph.add_instrument(shape(0, 0, 1));
    let amplifier = graph.add_instrument(shape(2, 0, 1));
    graph.add_control_source();
    let keys = graph.add_control_source();
    graph.connect_control_source(keys, envelope);
    graph.connect_control_source(keys, constant);
    graph.connect_value_stream(constant, 0, amplifier, 0);
    graph.connect_value_stream(envelope, 0, amplifier, 1);
    graph.connect_destination(0, amplifier, 0);
    assert!(graph.check_wiring());
    let actions = graph.process_next();
    assert_eq!(
        actions,
        vec![
            StepAction::ClearOutput,
            StepAction::FetchControl { source: 0 },
            StepAction::FetchControl { source: 1 },
            StepAction::FeedControl { source: 1, destination: 0, destination_stream: 0 },
            StepAction::FeedControl { source: 1, destination: 0, destination_stream: 1 },
            StepAction::Process { instrument: 0 },
            StepAction::Process { instrument: 1 },
            StepAction::FeedValue { source: 1, source_stream: 0, destination: 2, destination_stream: 0 },
            StepAction::FeedValue { source: 0, source_stream: 0, destination: 2, destination_stream: 1 },
            StepAction::Process { instrument: 2 },
            StepAction::Accumulate { channel: 0, source: 2, source_stream: 0 },
        ]
    );
}

#[test]
fn unbound_or_missing_control_source_feeds_nothing() {
    let mut graph: InstrumentGraph<2, 2, 1, 1> = InstrumentGraph::new();
    graph.add_instrument(shape(0, 1, 1));
    graph.add_instrument(shape(0, 1, 1));
    graph.connect_control_source(1, 0);
    assert!(graph.check_wiring());
    assert_eq!(
        graph.process_next(),
        vec![
            StepAction::ClearOutput,
            StepAction::Process { instrument: 0 },
            StepAction::Process { instrument: 1 },
        ]
    );
}

#[test]
fn destination_from_an_empty_slot_adds_nothing() {
    let mut graph: InstrumentGraph<2, 1, 2, 2> = InstrumentGraph::new();
    graph.add_instrument(shape(0, 0, 1));
    graph.connect_destination(1, 1, 0);
    graph.connect_destination(1, 0, 0);
    graph.connect_destination(0, 0, 0);
    assert!(graph.check_wiring());
    assert_eq!(
        graph.process_next(),
        vec![
            StepAction::ClearOutput,
            StepAction::Process { instrument: 0 },
            StepAction::Accumulate { channel: 0, source: 0, source_stream: 0 },
            StepAction::Accumulate { channel: 1, source: 0, source_stream: 0 },
        ]
    );
}

#[test]
fn wiring_faults_are_found() {
    let mut cyclic: InstrumentGraph<2, 1, 1, 1> = InstrumentGraph::new();
    cyclic.add_instrument(shape(1, 0, 1));
    cyclic.add_instrument(shape(1, 0, 1));
    cyclic.connect_value_stream(0, 0, 1, 0);
    cyclic.connect_value_stream(1, 0, 0, 0);
    assert!(!cyclic.check_wiring());

    let mut from_empty: InstrumentGraph<2, 1, 1, 1> = InstrumentGraph::new();
    from_empty.add_instrument(shape(1, 0, 1));
    from_empty.connect_value_stream(1, 0, 0, 0);
    assert!(!from_empty.check_wiring());

    let mut no_such_output: InstrumentGraph<2, 1, 1, 1> = InstrumentGraph::new();
    no_such_output.add_instrument(shape(0, 0, 1));
    no_such_output.add_instrument(shape(1, 0, 1));
    no_such_output.connect_value_stream(0, 1, 1, 0);
    assert!(!no_such_output.check_wiring());

    let mut no_such_input: InstrumentGraph<2, 1, 1, 1> = InstrumentGraph::new();
    no_such_input.add_instrument(shape(0, 0, 1));
    no_such_input.add_instrument(shape(1, 0, 1));
    no_such_input.connect_value_stream(0, 0, 1, 1);
    assert!(!no_such_input.check_wiring());

    let mut no_such_control: InstrumentGraph<1, 1, 1, 1> = InstrumentGraph::new();
    no_such_control.add_instrument(shape(0, 1, 1));
    no_such_control.instruments_control_sources[0] = Some(ControlStreamConnection { source_index: 1 });
    assert!(!no_such_control.check_wiring());

    let mut no_such_slot: InstrumentGraph<1, 1, 1, 1> = InstrumentGraph::new();
    no_such_slot.add_instrument(shape(0, 0, 1));
    no_such_slot.destination_connections[0][0] =
        Some(DestinationConnection { source_index: 1, source_stream_index: 0 });
    assert!(!no_such_slot.check_wiring());

    let mut no_such_stream: InstrumentGraph<1, 1, 1, 1> = InstrumentGraph::new();
    no_such_stream.add_instrument(shape(0, 0, 1));
    no_such_stream.connect_destination(0, 0, 1);
    assert!(!no_such_stream.check_wiring());
}

#[test]
fn step_buffer_is_refilled() {
    let mut graph: InstrumentGraph<2, 1, 1, 1> = InstrumentGraph::new();
    graph.add_instrument(shape(0, 0, 1));
    graph.connect_destination(0, 0, 0);
    let mut actions = vec![StepAction::Process { instrument: 7 }; 9];
    graph.process_next_into(&mut actions);
    let expected = vec![
        StepAction::ClearOutput,
        StepAction::Process { instrument: 0 },
        StepAction::Accumulate { channel: 0, source: 0, source_stream: 0 },
    ];
    assert_eq!(actions, expected);
    graph.process_next_into(&mut actions);
    assert_eq!(actions, expected);
    assert_eq!(graph.process_next(), expected);
}

#[test]
fn step_feeds_each_stream_between_source_and_destination() {
    let mut graph: InstrumentGraph<5, 1, 4, 1> = InstrumentGraph::new();
    for _ in 0..4 {
        graph.add_instrument(shape(2, 0, 1));
    }
    for (source, destination) in [(3, 1), (3, 2), (1, 0), (2, 0), (3, 0)] {
        graph.connect_value_stream(source, 0, destination, 1);
    }
    assert!(graph.check_wiring());
    let actions = graph.process_next();
    let run_at = |slot: usize| {
        let places: Vec<usize> = actions
            .iter()
            .enumerate()
            .filter(|(_, a)| **a == StepAction::Process { instrument: slot })
            .map(|(k, _)| k)
            .collect();
        assert_eq!(places.len(), 1);
        places[0]
    };
    let mut feeds = 0;
    for (k, action) in actions.iter().enumerate() {
        if let StepAction::FeedValue { source, destination, .. } = action {
            assert!(run_at(*source) < k);
            assert!(k < run_at(*destination));
            feeds += 1;
        }
    }
    assert_eq!(feeds, 5);
    let runs: Vec<usize> = actions
        .iter()
        .filter_map(|a| match a {
            StepAction::Process { instrument } => Some(*instrument),
            _ => None,
        })
        .collect();
    assert_eq!(runs, vec![3, 1, 2, 0]);
    assert_eq!(&graph.get_instrument_process_order()[..4], &runs[..]);
}

#[test]
fn every_control_source_is_advanced_once() {
    let mut graph: InstrumentGraph<1, 3, 1, 1> = InstrumentGraph::new();
    graph.add_control_source();
    graph.add_control_source();
    assert!(graph.check_wiring());
    assert_eq!(
        graph.process_next(),
        vec![
            StepAction::ClearOutput,
            StepAction::FetchControl { source: 0 },
            StepAction::FetchControl { source: 1 },
        ]
    );
}

#[test]
fn step_is_laid_out_only_on_a_sound_wiring() {
    let mut graph: InstrumentGraph<2, 1, 1, 1> = InstrumentGraph::new();
    graph.add_instrument(shape(1, 0, 1));
    graph.add_instrument(shape(0, 0, 1));
    graph.connect_value_stream(1, 0, 0, 0);
    let mut actions = vec![StepAction::ClearOutput; 2];
    assert!(graph.check_connections());
    assert!(graph.try_process_next_into(&mut actions));
    assert_eq!(
        actions,
        vec![
            StepAction::ClearOutput,
            StepAction::Process { instrument: 1 },
            StepAction::FeedValue { source: 1, source_stream: 0, destination: 0, destination_stream: 0 },
            StepAction::Process { instrument: 0 },
        ]
    );

    let mut cyclic: InstrumentGraph<1, 1, 1, 1> = InstrumentGraph::new();
    cyclic.add_instrument(shape(1, 0, 1));
    cyclic.connect_value_stream(0, 0, 0, 0);
    let before = actions.clone();
    assert!(cyclic.check_connections());
    assert!(!cyclic.try_process_next_into(&mut actions));
    assert_eq!(actions, before);

    let mut unwired: InstrumentGraph<2, 1, 1, 1> = InstrumentGraph::new();
    unwired.add_instrument(shape(1, 0, 1));
    unwired.connect_value_stream(1, 0, 0, 0);
    assert!(!unwired.check_connections());
    assert!(!unwired.try_process_next_into(&mut actions));
    assert_eq!(actions, before);
}

#[test]
fn wiring_calls_stay_within_the_slots() {
    let mut graph: InstrumentGraph<2, 2, 1, 1> = InstrumentGraph::new();
    graph.add_instrument(shape(0, 1, 1));
    graph.connect_control_source(1, 0);
    graph.connect_destination(0, 1, 3);
    assert_eq!(graph.instruments_control_sources[0].unwrap().source_index, 1);
    let entry = graph.destination_connections[0][0].unwrap();
    assert_eq!((entry.source_index, entry.source_stream_index), (1, 3));
    assert!(graph.check_wiring());
}
