//! Note commands, the elements of control streams.

use vstd::prelude::*;

verus! {

/// Number of value samples in one block.
pub const STANDARD_BLOCK_SIZE: usize = 128;

/// Number of note commands in one control block.
pub const STANDARD_ELEMENT_COUNT: usize = 128;

/// The type of command to be sent to an instrument.
#[derive(Debug, Copy, Clone, PartialEq, Eq, Structural)]
pub enum NoteCommandType {
    Noop,
    NoteOn,
    NoteOff,
}

/// A command to be sent to an instrument.
#[derive(Debug, Copy, Clone)]
pub struct NoteCommand<N: Sized> {
    /// The type of command.
    pub command_type: NoteCommandType,
    /// Full range of 0-255.
    pub velocity: u8,
    /// The note to be played.
    pub note: N,
}

/// A note given as a pitch number.
pub type MidiNote = u8;

/// A command whose note is a pitch number.
pub type MidiNoteCommand = NoteCommand<MidiNote>;

/// A note that carries no information.
#[derive(Debug, Copy, Clone)]
pub struct VoidNote;

impl Default for VoidNote {
    fn default() -> (r: Self)
        ensures
            r == VoidNote,
    {
        VoidNote
    }
}

impl<N: Sized> NoteCommand<N> {
    /// Whether this command changes nothing: a `Noop` with velocity 0.
    pub open spec fn is_silent(self) -> bool {
        self.command_type == NoteCommandType::Noop && self.velocity == 0
    }

    /// The command that fills a cleared control stream.
    pub fn noop(note: N) -> (r: Self)
        ensures
            r == (NoteCommand { command_type: NoteCommandType::Noop, velocity: 0, note }),
            r.is_silent(),
    {
        NoteCommand { command_type: NoteCommandType::Noop, velocity: 0, note }
    }
}

} // verus!
