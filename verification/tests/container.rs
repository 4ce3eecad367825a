use linstr::command::{NoteCommand, NoteCommandType, VoidNote, STANDARD_ELEMENT_COUNT};
use linstr::container::{ControlBlock, ControlStreamSource, InstrumentInput};

fn command(command_type: NoteCommandType, velocity: u8, note: u8) -> NoteCommand<u8> {
    NoteCommand { command_type, velocity, note }
}

fn is_noop(c: &NoteCommand<u8>) -> bool {
    c.command_type == NoteCommandType::Noop && c.velocity == 0
}

struct Repeating {
    block: Vec<NoteCommand<u8>>,
    fetched: usize,
}

impl ControlStreamSource<u8> for Repeating {
    fn current_block(&self) -> ControlBlock<u8> {
        unreachable!()
    }

    fn get_control_stream(&self) -> &[NoteCommand<u8>] {
        &self.block
    }

    fn fetch_next_stream(&mut self) {
        self.fetched += 1;
    }
}

#[test]
fn block_sizes_are_128() {
    assert_eq!(linstr::STANDARD_BLOCK_SIZE, 128);
    assert_eq!(STANDARD_ELEMENT_COUNT, 128);
}

#[test]
fn noop_command_is_silent() {
    let c = NoteCommand::noop(7u8);
    assert_eq!(c.command_type, NoteCommandType::Noop);
    assert_eq!(c.velocity, 0);
    assert_eq!(c.note, 7);
    let v: NoteCommand<VoidNote> = NoteCommand::noop(VoidNote::default());
    assert_eq!(v.command_type, NoteCommandType::Noop);
}

#[test]
fn new_input_is_clear() {
    let input: InstrumentInput<2, u8> = InstrumentInput::new();
    assert_eq!(input.in_control_streams(), 2);
    assert!(input.control_streams.iter().all(|s| s.iter().all(is_noop)));
}

#[test]
fn control_feed_is_overwrite_only() {
    let mut input: InstrumentInput<2, u8> = InstrumentInput::new();
    let first = [command(NoteCommandType::NoteOn, 90, 60); 128];
    let second = [command(NoteCommandType::NoteOff, 10, 61); 128];
    input.feed_control_stream(1, &first);
    input.feed_control_stream(1, &second);
    for c in input.control_streams[1].iter() {
        assert_eq!((c.command_type, c.velocity, c.note), (NoteCommandType::NoteOff, 10, 61));
    }
    assert!(input.control_streams[0].iter().all(is_noop));
}

#[test]
fn short_feed_leaves_nothing_of_an_earlier_feed() {
    let mut input: InstrumentInput<2, u8> = InstrumentInput::new();
    let long = [command(NoteCommandType::NoteOn, 90, 60); 128];
    let short = [command(NoteCommandType::NoteOff, 10, 61); 1];
    input.feed_control_stream(0, &long);
    input.feed_control_stream(1, &long);
    input.feed_control_stream(0, &short);
    let first = input.control_streams[0][0];
    assert_eq!((first.command_type, first.velocity, first.note), (NoteCommandType::NoteOff, 10, 61));
    assert!(input.control_streams[0][1..].iter().all(is_noop));
    assert!(input.control_streams[0].iter().all(|c| c.command_type != NoteCommandType::NoteOn));
    assert!(input.control_streams[1].iter().all(|c| c.velocity == 90));
}

#[test]
fn empty_feed_clears_the_stream() {
    let mut input: InstrumentInput<1, u8> = InstrumentInput::new();
    input.feed_control_stream(0, &[command(NoteCommandType::NoteOn, 90, 60); 128]);
    input.feed_control_stream(0, &[]);
    assert!(input.control_streams[0].iter().all(is_noop));
}

#[test]
fn long_feed_is_cut_at_the_block() {
    let mut input: InstrumentInput<1, u8> = InstrumentInput::new();
    let long: Vec<NoteCommand<u8>> =
        (0..200).map(|k| command(NoteCommandType::NoteOn, k as u8, 1)).collect();
    input.feed_control_stream(0, &long);
    for (j, c) in input.control_streams[0].iter().enumerate() {
        assert_eq!(c.velocity, j as u8);
    }
}

#[test]
fn clear_resets_every_control_stream() {
    let mut input: InstrumentInput<3, u8> = InstrumentInput::new();
    let block = [command(NoteCommandType::NoteOn, 90, 60); 128];
    input.feed_control_stream(0, &block);
    input.feed_control_stream(2, &block);
    input.clear_input();
    assert!(input.control_streams.iter().all(|s| s.iter().all(is_noop)));
    assert!(input.control_streams.iter().all(|s| s.iter().all(|c| c.note == 0)));
}

#[test]
fn control_source_reaches_every_control_stream() {
    let mut input: InstrumentInput<2, u8> = InstrumentInput::new();
    let mut source = Repeating { block: vec![command(NoteCommandType::NoteOn, 33, 4); 2], fetched: 0 };
    source.fetch_next_stream();
    input.feed_control_source(&source);
    assert_eq!(source.fetched, 1);
    for stream in input.control_streams.iter() {
        assert_eq!(stream[0].velocity, 33);
        assert_eq!(stream[1].command_type, NoteCommandType::NoteOn);
        assert!(stream[2..].iter().all(is_noop));
    }
}
