//! A block-based signal-processing graph for synthesizing sound from note events.
//!
//! The crate holds the discrete part of the synthesizer: the note commands
//! that flow through control streams, the wiring and scheduling of the
//! instrument graph, the control input of an instrument container, and the
//! state machines of the standard instruments. Nothing here allocates while
//! wiring, and nothing here touches a sample: the host keeps the sample
//! buffers, carries out the actions of each step and evaluates the gains
//! that the instruments name.

pub mod command;
pub mod container;
pub mod graph;
pub mod instrument;
pub mod order;
pub mod schedule;
pub mod step;
pub mod wiring;

pub use command::{
    MidiNote, MidiNoteCommand, NoteCommand, NoteCommandType, VoidNote, STANDARD_BLOCK_SIZE,
    STANDARD_ELEMENT_COUNT,
};
pub use container::{ControlBlock, ControlStreamSource, InstrumentInput};
pub use graph::{
    ControlStreamConnection, DestinationConnection, InstrumentGraph, InstrumentShape,
    ValueStreamConnection,
};
pub use instrument::envelope::{EnvelopeSample, HeldGain, LinearEnvelope, SampleGain};
pub use instrument::{Amplifier, Delay, DelayTap, Mixer};
pub use step::StepAction;
