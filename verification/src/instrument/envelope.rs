//! A linear envelope with a fixed number of points.
//!
//! The envelope is triggered by a note-on command and goes through its
//! points in order, each segment ramping to the gain of its point over the
//! point's time. At the last point it stays until a note-off command, which
//! starts the release: a ramp from the gain last reached down to zero.
//!
//! The point gains themselves are kept by the host. The envelope tracks where
//! on the curve it stands and names each sample as a term over the point
//! gains, which the host evaluates.

use vstd::prelude::*;
use crate::command::{NoteCommand, NoteCommandType};

verus! {

/// A gain on the playing part of the curve.
#[derive(Debug, Copy, Clone, PartialEq, Eq, Structural)]
pub enum HeldGain {
    /// No gain.
    Zero,
    /// Full gain.
    One,
    /// The gain of point `index`.
    Point { index: usize },
    /// The gain `time` samples into the ramp towards point `segment`, which
    /// starts at the gain of the point before (at zero for the first point)
    /// and takes the point's time.
    Ramp { segment: usize, time: usize },
}

/// The gain of one sample, before the note's velocity is applied.
#[derive(Debug, Copy, Clone, PartialEq, Eq, Structural)]
pub enum SampleGain {
    /// Silence.
    Zero,
    /// A gain on the playing part of the curve.
    Held { gain: HeldGain },
    /// The gain `time` samples into the release ramp, which starts at `from`
    /// and reaches zero after the release time.
    Release { from: HeldGain, time: usize },
}

/// One sample of the envelope: a gain, scaled by the note's velocity over 255.
#[derive(Debug, Copy, Clone, PartialEq, Eq, Structural)]
pub struct EnvelopeSample {
    pub gain: SampleGain,
    pub velocity: u8,
}

/// The state machine of a linear envelope with `POINTS` points.
#[derive(Debug, Copy, Clone)]
pub struct LinearEnvelope<const POINTS: usize> {
    /// The time in samples for each point. The first is the attack time.
    pub point_times: [usize; POINTS],
    /// Release time in samples.
    pub release_time: usize,
    /// 0 = off, 1 to `POINTS` = playing that segment, above = releasing.
    pub current_point: usize,
    /// Current time inside the current segment, in samples.
    pub current_time: usize,
    /// Velocity of the current note.
    pub current_velocity: u8,
    /// The gain last played, from which a release starts.
    pub current_gain: HeldGain,
}

/// The first segment from `i` on, counted from 1, whose time is not zero, or
/// the last segment if there is none.
pub open spec fn first_lasting(point_times: Seq<usize>, i: int) -> int
    decreases point_times.len() - i,
{
    if 1 <= i < point_times.len() && point_times[i - 1] == 0 {
        first_lasting(point_times, i + 1)
    } else {
        i
    }
}

impl<const POINTS: usize> LinearEnvelope<POINTS> {
    /// The envelope is off.
    pub open spec fn is_off(&self) -> bool {
        self.current_point == 0
    }

    /// The envelope is playing one of its segments.
    pub open spec fn is_playing(&self) -> bool {
        0 < self.current_point <= POINTS
    }

    /// The envelope is releasing.
    pub open spec fn is_releasing(&self) -> bool {
        self.current_point > POINTS
    }

    /// The first segment from `i` on that takes time, or the last segment if none does.
    pub open spec fn skip_instant(&self, i: int) -> int {
        first_lasting(self.point_times@, i)
    }

    /// The state after a command.
    pub open spec fn after_command(&self, command_type: NoteCommandType, velocity: u8) -> Self {
        match command_type {
            NoteCommandType::NoteOn => {
                let first = self.skip_instant(1);
                LinearEnvelope {
                    current_point: first as usize,
                    current_time: 0,
                    current_velocity: velocity,
                    current_gain: if first > 1 {
                        HeldGain::Point { index: (first - 2) as usize }
                    } else {
                        HeldGain::Zero
                    },
                    ..*self
                }
            },
            NoteCommandType::NoteOff => if self.is_playing() {
                LinearEnvelope { current_point: (POINTS + 1) as usize, current_time: 0, ..*self }
            } else {
                *self
            },
            NoteCommandType::Noop => *self,
        }
    }

    /// The gain of the segment that is playing, at the current time.
    pub open spec fn segment_gain(&self) -> HeldGain {
        let segment = self.current_point - 1;
        let point_time = self.point_times[segment];
        if point_time == 0 {
            HeldGain::Point { index: segment as usize }
        } else if self.current_time < point_time {
            HeldGain::Ramp { segment: segment as usize, time: self.current_time }
        } else {
            HeldGain::Ramp { segment: segment as usize, time: point_time }
        }
    }

    /// The gain from which a release ramps down.
    pub open spec fn release_from(&self) -> HeldGain {
        if POINTS == 0 {
            HeldGain::One
        } else {
            self.current_gain
        }
    }

    /// The sample that the envelope plays next.
    pub open spec fn sample(&self) -> EnvelopeSample {
        EnvelopeSample {
            gain: if self.is_off() {
                SampleGain::Zero
            } else if self.is_playing() {
                SampleGain::Held { gain: self.segment_gain() }
            } else if self.release_time == 0 {
                SampleGain::Zero
            } else {
                SampleGain::Release { from: self.release_from(), time: self.current_time }
            },
            velocity: self.current_velocity,
        }
    }

    /// The state after playing one sample.
    pub open spec fn after_sample(&self) -> Self {
        if self.is_off() {
            *self
        } else if self.is_playing() {
            let point_time = self.point_times[self.current_point - 1];
            if self.current_time + 1 < point_time {
                LinearEnvelope {
                    current_time: (self.current_time + 1) as usize,
                    current_gain: self.segment_gain(),
                    ..*self
                }
            } else if self.current_point < POINTS {
                LinearEnvelope {
                    current_point: self.skip_instant(self.current_point + 1) as usize,
                    current_time: 0,
                    current_gain: self.segment_gain(),
                    ..*self
                }
            } else {
                LinearEnvelope {
                    current_time: point_time,
                    current_gain: self.segment_gain(),
                    ..*self
                }
            }
        } else if self.current_time + 1 < self.release_time {
            LinearEnvelope {
                current_time: (self.current_time + 1) as usize,
                current_gain: self.release_from(),
                ..*self
            }
        } else {
            LinearEnvelope {
                current_point: 0,
                current_time: 0,
                current_gain: self.release_from(),
                ..*self
            }
        }
    }

    /// The state after the first `n` of `commands`, taken in order.
    pub open spec fn after_commands<N>(&self, commands: Seq<NoteCommand<N>>, n: int) -> Self
        decreases n,
    {
        if n <= 0 {
            *self
        } else {
            self.after_commands(commands, n - 1).after_command(
                commands[n - 1].command_type,
                commands[n - 1].velocity,
            )
        }
    }

    /// The state after playing `n` samples.
    pub open spec fn after_samples(&self, n: int) -> Self
        decreases n,
    {
        if n <= 0 {
            *self
        } else {
            self.after_samples(n - 1).after_sample()
        }
    }

    /// The state machine is consistent: the current point is off, a segment
    /// or the release, and the held gain names a point or a ramp that exists.
    pub open spec fn wf(&self) -> bool {
        &&& POINTS < usize::MAX
        &&& self.current_point <= POINTS + 1
        &&& match self.current_gain {
            HeldGain::Zero => true,
            HeldGain::One => true,
            HeldGain::Point { index } => index < POINTS,
            HeldGain::Ramp { segment, time } => segment < POINTS && 0 < self.point_times[
                segment as int
            ] && time <= self.point_times[segment as int],
        }
    }

    /// Whether the state machine is consistent.
    pub fn is_consistent(&self) -> (ok: bool)
        ensures
            ok == self.wf(),
    {
        if POINTS == usize::MAX || self.current_point > POINTS + 1 {
            return false;
        }
        match self.current_gain {
            HeldGain::Zero => true,
            HeldGain::One => true,
            HeldGain::Point { index } => index < POINTS,
            HeldGain::Ramp { segment, time } => segment < POINTS && 0 < self.point_times[segment]
                && time <= self.point_times[segment],
        }
    }

    /// An envelope that is off.
    pub fn new(point_times: [usize; POINTS], release_time: usize) -> (envelope: Self)
        requires
            POINTS < usize::MAX,
        ensures
            envelope.wf(),
            envelope.is_off(),
            envelope.point_times == point_times,
            envelope.release_time == release_time,
            envelope.current_time == 0,
            envelope.current_velocity == 0,
            envelope.current_gain == HeldGain::Zero,
    {
        LinearEnvelope {
            point_times,
            release_time,
            current_point: 0,
            current_time: 0,
            current_velocity: 0,
            current_gain: HeldGain::Zero,
        }
    }

    /// Skipping stops at a segment from `i` to the last, and all the segments
    /// passed over take no time.
    pub proof fn lemma_skip_instant(&self, i: int)
        requires
            1 <= i,
        ensures
            i <= self.skip_instant(i),
            i <= POINTS ==> self.skip_instant(i) <= POINTS,
            self.skip_instant(i) < POINTS ==> self.point_times[self.skip_instant(i) - 1] != 0,
            forall|k: int| i - 1 <= k < self.skip_instant(i) - 1 ==> self.point_times[k] == 0,
        decreases POINTS - i,
    {
        if 1 <= i < POINTS && self.point_times[i - 1] == 0 {
            self.lemma_skip_instant(i + 1);
        }
    }

    fn skip_instant_from(&self, start: usize) -> (segment: usize)
        requires
            1 <= start,
            POINTS < usize::MAX,
            start <= POINTS + 1,
        ensures
            segment == self.skip_instant(start as int),
            start <= segment <= POINTS + 1,
    {
        let mut i: usize = start;
        while i < POINTS && self.point_times[i - 1] == 0
            invariant
                1 <= start <= i,
                i <= POINTS + 1,
                POINTS < usize::MAX,
                self.skip_instant(i as int) == self.skip_instant(start as int),
            decreases POINTS - i,
        {
            i += 1;
        }
        i
    }

    /// Takes one command: a note-on restarts the envelope at its first
    /// segment that takes time, a note-off starts the release if a segment is
    /// playing, and a no-op changes nothing.
    pub fn handle_command(&mut self, command_type: NoteCommandType, velocity: u8)
        requires
            old(self).wf(),
        ensures
            final(self).wf(),
            *final(self) == old(self).after_command(command_type, velocity),
    {
        match command_type {
            NoteCommandType::NoteOn => {
                let first = self.skip_instant_from(1);
                proof {
                    self.lemma_skip_instant(1);
                }
                self.current_time = 0;
                self.current_velocity = velocity;
                self.current_point = first;
                self.current_gain = if first > 1 {
                    HeldGain::Point { index: first - 2 }
                } else {
                    HeldGain::Zero
                };
            },
            NoteCommandType::NoteOff => {
                if self.current_point > 0 && self.current_point <= POINTS {
                    self.current_point = POINTS + 1;
                    self.current_time = 0;
                }
            },
            NoteCommandType::Noop => {},
        }
    }

    /// Plays one sample and moves on along the curve.
    pub fn next_sample(&mut self) -> (sample: EnvelopeSample)
        requires
            old(self).wf(),
        ensures
            final(self).wf(),
            sample == old(self).sample(),
            *final(self) == old(self).after_sample(),
    {
        let velocity = self.current_velocity;
        if self.current_point == 0 {
            EnvelopeSample { gain: SampleGain::Zero, velocity }
        } else if self.current_point <= POINTS {
            let segment = self.current_point - 1;
            let point_time = self.point_times[segment];
            let gain = if point_time == 0 {
                HeldGain::Point { index: segment }
            } else if self.current_time < point_time {
                HeldGain::Ramp { segment, time: self.current_time }
            } else {
                HeldGain::Ramp { segment, time: point_time }
            };
            self.current_gain = gain;
            if self.current_time < point_time && self.current_time + 1 < point_time {
                self.current_time = self.current_time + 1;
            } else if self.current_point < POINTS {
                let next = self.skip_instant_from(self.current_point + 1);
                self.current_point = next;
                self.current_time = 0;
            } else {
                self.current_time = point_time;
            }
            EnvelopeSample { gain: SampleGain::Held { gain }, velocity }
        } else {
            let from = if POINTS == 0 {
                HeldGain::One
            } else {
                self.current_gain
            };
            let gain = if self.release_time == 0 {
                SampleGain::Zero
            } else {
                SampleGain::Release { from, time: self.current_time }
            };
            self.current_gain = from;
            if self.current_time < self.release_time && self.current_time + 1 < self.release_time {
                self.current_time = self.current_time + 1;
            } else {
                self.current_point = 0;
                self.current_time = 0;
            }
            EnvelopeSample { gain, velocity }
        }
    }

    /// The envelope after a block: after the commands, then `block_size` samples.
    pub open spec fn after_block<N>(&self, commands: Seq<NoteCommand<N>>, block_size: int) -> Self {
        self.after_commands(commands, commands.len() as int).after_samples(block_size)
    }

    /// The samples of a block: the commands are taken first, all at the
    /// start of the block, then `block_size` samples are played.
    pub open spec fn block_samples<N>(
        &self,
        commands: Seq<NoteCommand<N>>,
        block_size: int,
    ) -> Seq<EnvelopeSample> {
        Seq::new(
            block_size as nat,
            |i: int| self.after_commands(commands, commands.len() as int).after_samples(i).sample(),
        )
    }

    /// Processes one block into `output`, in place of what it held: takes
    /// the commands of the control stream in order, all at the start of the
    /// block, then plays `block_size` samples.
    pub fn process_block_into<N>(
        &mut self,
        commands: &[NoteCommand<N>],
        block_size: usize,
        output: &mut Vec<EnvelopeSample>,
    )
        requires
            old(self).wf(),
        ensures
            final(self).wf(),
            *final(self) == old(self).after_block(commands@, block_size as int),
            final(output)@ == old(self).block_samples(commands@, block_size as int),
    {
        let ghost start = *self;
        let mut c: usize = 0;
        while c < commands.len()
            invariant
                c <= commands@.len(),
                self.wf(),
                *self == start.after_commands(commands@, c as int),
            decreases commands@.len() - c,
        {
            self.handle_command(commands[c].command_type, commands[c].velocity);
            c += 1;
        }
        let ghost triggered = *self;
        output.clear();
        let mut i: usize = 0;
        while i < block_size
            invariant
                i <= block_size,
                self.wf(),
                *self == triggered.after_samples(i as int),
                output@.len() == i,
                forall|k: int|
                    0 <= k < i ==> #[trigger] output@[k] == triggered.after_samples(k).sample(),
            decreases block_size - i,
        {
            let sample = self.next_sample();
            output.push(sample);
            i += 1;
        }
        assert(output@ =~= start.block_samples(commands@, block_size as int));
    }

    /// Processes one block into a new buffer.
    pub fn process_block<N>(&mut self, commands: &[NoteCommand<N>], block_size: usize) -> (output:
        Vec<EnvelopeSample>)
        requires
            old(self).wf(),
        ensures
            final(self).wf(),
            *final(self) == old(self).after_block(commands@, block_size as int),
            output@ == old(self).block_samples(commands@, block_size as int),
    {
        let mut output: Vec<EnvelopeSample> = Vec::new();
        self.process_block_into(commands, block_size, &mut output);
        output
    }

    /// A note-on starts a note at time 0 with the command's velocity: on the
    /// first segment that takes time or on the last one, or, where the
    /// envelope has no points, in the release.
    pub proof fn lemma_note_on(&self, velocity: u8)
        requires
            POINTS < usize::MAX,
        ensures
            self.after_command(NoteCommandType::NoteOn, velocity).current_time == 0,
            self.after_command(NoteCommandType::NoteOn, velocity).current_velocity == velocity,
            self.after_command(NoteCommandType::NoteOn, velocity).current_point
                == self.skip_instant(1),
            POINTS > 0 ==> self.after_command(NoteCommandType::NoteOn, velocity).is_playing(),
            POINTS == 0 ==> self.after_command(NoteCommandType::NoteOn, velocity).is_releasing(),
    {
        self.lemma_skip_instant(1);
    }

    /// From the start of a segment of time `T`, sample number `n < T` stands
    /// `n` samples into the ramp of that segment.
    pub proof fn lemma_segment_ramps(&self, n: int)
        requires
            self.is_playing(),
            self.current_time == 0,
            0 <= n < self.point_times[self.current_point - 1],
        ensures
            self.after_samples(n).point_times == self.point_times,
            self.after_samples(n).release_time == self.release_time,
            self.after_samples(n).current_velocity == self.current_velocity,
            self.after_samples(n).current_point == self.current_point,
            self.after_samples(n).current_time == n,
            self.after_samples(n).sample() == (EnvelopeSample {
                gain: SampleGain::Held {
                    gain: HeldGain::Ramp {
                        segment: (self.current_point - 1) as usize,
                        time: n as usize,
                    },
                },
                velocity: self.current_velocity,
            }),
        decreases n,
    {
        if n > 0 {
            self.lemma_segment_ramps(n - 1);
        }
    }

    /// From the start of the last segment, of time `T`, every sample from
    /// number `T` on holds the gain at the end of that segment, until a
    /// note-off comes.
    pub proof fn lemma_last_segment_sustains(&self, n: int)
        requires
            self.is_playing(),
            self.current_point == POINTS,
            self.current_time == 0,
            n >= self.point_times[POINTS - 1],
        ensures
            self.after_samples(n).point_times == self.point_times,
            self.after_samples(n).release_time == self.release_time,
            self.after_samples(n).current_velocity == self.current_velocity,
            self.after_samples(n).current_point == POINTS,
            self.after_samples(n).current_time == self.point_times[POINTS - 1],
            self.after_samples(n).sample() == (EnvelopeSample {
                gain: SampleGain::Held {
                    gain: if self.point_times[POINTS - 1] == 0 {
                        HeldGain::Point { index: (POINTS - 1) as usize }
                    } else {
                        HeldGain::Ramp {
                            segment: (POINTS - 1) as usize,
                            time: self.point_times[POINTS - 1],
                        }
                    },
                },
                velocity: self.current_velocity,
            }),
        decreases n,
    {
        let point_time = self.point_times[POINTS - 1];
        if n > point_time {
            self.lemma_last_segment_sustains(n - 1);
        } else if n > 0 {
            self.lemma_segment_ramps(n - 1);
        }
    }

    /// From the start of a release of time `R`, sample number `n < R` stands
    /// `n` samples into the ramp from the gain held at the note-off down to
    /// zero, and after sample number `R - 1` the envelope is off. With a
    /// release time of 0 the first sample is silent and the envelope is off
    /// after it.
    pub proof fn lemma_release_runs_out(&self, n: int)
        requires
            self.is_releasing(),
            self.current_time == 0,
            0 <= n,
            n < self.release_time || n == 0,
        ensures
            self.after_samples(n).point_times == self.point_times,
            self.after_samples(n).release_time == self.release_time,
            self.after_samples(n).current_velocity == self.current_velocity,
            self.after_samples(n).current_point == self.current_point,
            self.after_samples(n).current_time == n,
            self.after_samples(n).release_from() == self.release_from(),
            self.after_samples(n).sample() == (EnvelopeSample {
                gain: if self.release_time == 0 {
                    SampleGain::Zero
                } else {
                    SampleGain::Release { from: self.release_from(), time: n as usize }
                },
                velocity: self.current_velocity,
            }),
            n + 1 >= self.release_time ==> self.after_samples(n + 1).is_off(),
            n + 1 < self.release_time ==> self.after_samples(n + 1).is_releasing(),
        decreases n,
    {
        if n > 0 {
            self.lemma_release_runs_out(n - 1);
        }
        assert(self.after_samples(n + 1) == self.after_samples(n).after_sample());
    }

    /// Once off, the envelope plays silence and stays off until a note-on.
    pub proof fn lemma_off_is_silent(&self, n: int)
        requires
            self.is_off(),
        ensures
            self.after_samples(n) == *self,
            self.sample().gain == SampleGain::Zero,
            self.after_command(NoteCommandType::NoteOff, 0) == *self,
        decreases n,
    {
        if n > 0 {
            self.lemma_off_is_silent(n - 1);
        }
    }
}

} // verus!
