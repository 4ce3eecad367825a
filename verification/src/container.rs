//! The control input of an instrument container.
//!
//! A container gathers the input of its instrument between two steps. Each
//! feed replaces what a control stream held, so the last feed before a step
//! is the one that counts, and the streams are reset to no-op commands once
//! the instrument has run.

use vstd::prelude::*;
use crate::command::{NoteCommand, NoteCommandType, STANDARD_ELEMENT_COUNT};

verus! {

/// The control streams gathered for an instrument.
///
/// The first dimension is the stream number, the second is the element index.
/// Whatever the element index, all commands of a block happen at its start.
#[derive(Debug, Clone)]
pub struct InstrumentInput<const CONTROL_STREAMS: usize, Note: Copy> {
    pub control_streams: [[NoteCommand<Note>; STANDARD_ELEMENT_COUNT]; CONTROL_STREAMS],
}

/// A block of commands as contracts speak of it.
pub type ControlBlock<Note> = Seq<NoteCommand<Note>>;

/// A producer of control streams, one block per step.
///
/// The graph advances every source once per step, whether or not it is
/// bound to an instrument, and hands the current block of a bound source to
/// the control streams of its instrument.
///
/// The contract of `get_control_stream` is taken on trust from each
/// implementation. A source written outside verified code gives
/// `current_block` a body that is never run.
pub trait ControlStreamSource<Note> {
    /// The block of commands that the source holds for the current step.
    spec fn current_block(&self) -> Seq<NoteCommand<Note>>;

    /// The current block of commands. The call only reads: it returns the
    /// block that the source holds, and the same block until the source is
    /// advanced.
    fn get_control_stream(&self) -> (stream: &[NoteCommand<Note>])
        ensures
            stream@ == self.current_block(),
    ;

    /// Advances to the commands of the next block.
    fn fetch_next_stream(&mut self);
}

/// The control stream `row` holds `stream` and nothing else: the commands
/// of `stream` stand first, as far as the row reaches, and every command
/// after them is a no-op with velocity 0.
pub open spec fn holds_only<Note>(
    row: Seq<NoteCommand<Note>>,
    stream: Seq<NoteCommand<Note>>,
) -> bool {
    forall|j: int|
        0 <= j < row.len() ==> if j < stream.len() {
            #[trigger] row[j] == stream[j]
        } else {
            row[j].is_silent()
        }
}

/// Of two feeds into one control stream only the second is left: whatever
/// was fed before, the stream is then as after a feed of the second alone.
/// The two agree in every command of the feed, and in the type and the
/// velocity of every command after it.
pub proof fn lemma_last_feed_wins<Note>(
    after_both: Seq<NoteCommand<Note>>,
    after_second_alone: Seq<NoteCommand<Note>>,
    second: Seq<NoteCommand<Note>>,
)
    requires
        after_both.len() == after_second_alone.len(),
        holds_only(after_both, second),
        holds_only(after_second_alone, second),
    ensures
        forall|j: int|
            0 <= j < after_both.len() ==> (#[trigger] after_both[j]).command_type
                == after_second_alone[j].command_type && after_both[j].velocity
                == after_second_alone[j].velocity && (j < second.len() ==> after_both[j]
                == after_second_alone[j]),
{
    assert forall|j: int| 0 <= j < after_both.len() implies (#[trigger] after_both[j]).command_type
        == after_second_alone[j].command_type && after_both[j].velocity
        == after_second_alone[j].velocity && (j < second.len() ==> after_both[j]
        == after_second_alone[j]) by {
        assert(after_second_alone[j] == after_second_alone[j]);
    }
}

/// A feed that fills the stream leaves exactly its first commands there.
pub proof fn lemma_full_feed_replaces<Note>(
    row: Seq<NoteCommand<Note>>,
    stream: Seq<NoteCommand<Note>>,
)
    requires
        holds_only(row, stream),
        stream.len() >= row.len(),
    ensures
        row == stream.take(row.len() as int),
{
    assert(row =~= stream.take(row.len() as int));
}

impl<const CONTROL_STREAMS: usize, Note: Copy + Default> InstrumentInput<CONTROL_STREAMS, Note> {
    /// Control stream `i`.
    pub open spec fn stream(&self, i: int) -> Seq<NoteCommand<Note>> {
        self.control_streams[i]@
    }

    /// Every command of every control stream is a no-op with velocity 0.
    pub open spec fn is_clear(&self) -> bool {
        forall|i: int, j: int|
            0 <= i < CONTROL_STREAMS && 0 <= j < STANDARD_ELEMENT_COUNT ==> (
            #[trigger] self.control_streams[i][j]).is_silent()
    }

    /// Every command of every control stream is the no-op with velocity 0
    /// and the given note.
    pub open spec fn is_blank(&self, note: Note) -> bool {
        forall|i: int, j: int|
            0 <= i < CONTROL_STREAMS && 0 <= j < STANDARD_ELEMENT_COUNT
                ==> #[trigger] self.control_streams[i][j] == (NoteCommand {
                command_type: NoteCommandType::Noop,
                velocity: 0,
                note,
            })
    }

    /// An input with every control stream clear: all its commands are one
    /// and the same no-op with velocity 0, which carries the default note.
    pub fn new() -> (input: Self)
        ensures
            input.is_clear(),
            exists|note: Note| #[trigger] input.is_blank(note),
    {
        let blank = NoteCommand {
            command_type: NoteCommandType::Noop,
            velocity: 0,
            note: Note::default(),
        };
        let input = InstrumentInput {
            control_streams: [[blank; STANDARD_ELEMENT_COUNT]; CONTROL_STREAMS],
        };
        assert(input.is_blank(blank.note));
        input
    }

    /// The number of control streams.
    pub fn in_control_streams(&self) -> (n: usize)
        ensures
            n == CONTROL_STREAMS,
    {
        CONTROL_STREAMS
    }

    /// Resets every control stream, as after the instrument has run: all
    /// commands are then one and the same no-op with velocity 0, which
    /// carries the default note.
    pub fn clear_input(&mut self)
        ensures
            final(self).is_clear(),
            exists|note: Note| #[trigger] final(self).is_blank(note),
    {
        let blank = NoteCommand {
            command_type: NoteCommandType::Noop,
            velocity: 0,
            note: Note::default(),
        };
        let mut i: usize = 0;
        while i < CONTROL_STREAMS
            invariant
                i <= CONTROL_STREAMS,
                forall|a: int, b: int|
                    0 <= a < i && 0 <= b < STANDARD_ELEMENT_COUNT
                        ==> #[trigger] self.control_streams[a][b] == blank,
            decreases CONTROL_STREAMS - i,
        {
            let mut j: usize = 0;
            while j < STANDARD_ELEMENT_COUNT
                invariant
                    i < CONTROL_STREAMS,
                    j <= STANDARD_ELEMENT_COUNT,
                    forall|a: int, b: int|
                        0 <= a < i && 0 <= b < STANDARD_ELEMENT_COUNT
                            ==> #[trigger] self.control_streams[a][b] == blank,
                    forall|b: int|
                        0 <= b < j ==> #[trigger] self.control_streams[i as int][b] == blank,
                decreases STANDARD_ELEMENT_COUNT - j,
            {
                self.control_streams[i][j] = blank;
                j += 1;
            }
            i += 1;
        }
        assert(self.is_blank(blank.note));
    }

    /// Feeds a control stream to the instrument. Stream `stream_index` then
    /// holds the commands of `stream`, as far as a block reaches, and no-op
    /// commands after them: nothing of an earlier feed is left, so the last
    /// feed before the instrument runs is the one that counts.
    pub fn feed_control_stream(&mut self, stream_index: usize, stream: &[NoteCommand<Note>])
        requires
            stream_index < CONTROL_STREAMS,
        ensures
            holds_only(final(self).stream(stream_index as int), stream@),
            forall|i: int|
                0 <= i < CONTROL_STREAMS && i != stream_index ==> final(self).control_streams[i]
                    == old(self).control_streams[i],
    {
        let blank = NoteCommand {
            command_type: NoteCommandType::Noop,
            velocity: 0,
            note: Note::default(),
        };
        let len = if stream.len() < STANDARD_ELEMENT_COUNT {
            stream.len()
        } else {
            STANDARD_ELEMENT_COUNT
        };
        let mut j: usize = 0;
        while j < STANDARD_ELEMENT_COUNT
            invariant
                j <= STANDARD_ELEMENT_COUNT,
                len <= stream@.len(),
                len <= STANDARD_ELEMENT_COUNT,
                len == STANDARD_ELEMENT_COUNT || len == stream@.len(),
                stream_index < CONTROL_STREAMS,
                blank.is_silent(),
                forall|i: int|
                    0 <= i < CONTROL_STREAMS && i != stream_index ==> self.control_streams[i]
                        == old(self).control_streams[i],
                forall|b: int|
                    0 <= b < j ==> if b < len {
                        #[trigger] self.control_streams[stream_index as int][b] == stream@[b]
                    } else {
                        self.control_streams[stream_index as int][b].is_silent()
                    },
            decreases STANDARD_ELEMENT_COUNT - j,
        {
            if j < len {
                self.control_streams[stream_index][j] = stream[j];
            } else {
                self.control_streams[stream_index][j] = blank;
            }
            j += 1;
        }
        assert(holds_only(self.stream(stream_index as int), stream@)) by {
            let row = self.stream(stream_index as int);
            assert forall|b: int| 0 <= b < row.len() implies if b < stream@.len() {
                #[trigger] row[b] == stream@[b]
            } else {
                row[b].is_silent()
            } by {
                assert(row[b] == self.control_streams[stream_index as int][b]);
            }
        }
    }

    /// Every control stream holds `stream` and nothing else.
    pub open spec fn received(&self, stream: Seq<NoteCommand<Note>>) -> bool {
        forall|i: int| 0 <= i < CONTROL_STREAMS ==> holds_only(#[trigger] self.stream(i), stream)
    }

    /// Feeds one block of commands to every control stream.
    pub fn feed_all_control_streams(&mut self, stream: &[NoteCommand<Note>])
        ensures
            final(self).received(stream@),
    {
        let mut i: usize = 0;
        while i < CONTROL_STREAMS
            invariant
                i <= CONTROL_STREAMS,
                forall|a: int| 0 <= a < i ==> holds_only(#[trigger] self.stream(a), stream@),
            decreases CONTROL_STREAMS - i,
        {
            let ghost before = *self;
            self.feed_control_stream(i, stream);
            assert forall|a: int| 0 <= a < i implies holds_only(#[trigger] self.stream(a), stream@) by {
                assert(self.control_streams[a] == before.control_streams[a]);
                assert(holds_only(before.stream(a), stream@));
            }
            i += 1;
        }
    }

    /// Feeds the current block of a control source to every control stream.
    pub fn feed_control_source<S: ControlStreamSource<Note>>(&mut self, source: &S)
        ensures
            final(self).received(source.current_block()),
    {
        let stream = source.get_control_stream();
        self.feed_all_control_streams(stream);
    }
}

} // verus!
