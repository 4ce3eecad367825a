//! Standard instruments.
//!
//! Each instrument declares its stream counts, with which it is added to a
//! graph. The instruments that carry state between samples keep the discrete
//! part of it here.

pub mod envelope;

use vstd::prelude::*;
use crate::graph::InstrumentShape;

verus! {

/// The amplifier instrument.
///
/// This instrument accepts two value streams:
/// - The first stream is the input signal
/// - The second stream is the gain of the amplifier
///
/// The output stream is the input signal multiplied by the gain.
pub struct Amplifier<Note> {
    _phantom: core::marker::PhantomData<Note>,
}

impl<Note> Amplifier<Note> {
    /// An amplifier.
    pub fn new() -> (amplifier: Self)
        ensures
            amplifier.shape() == (InstrumentShape {
                in_value_streams: 2,
                in_control_streams: 0,
                out_value_streams: 1,
            }),
    {
        Amplifier { _phantom: core::marker::PhantomData }
    }

    /// Two value streams in, one out.
    pub open spec fn shape(&self) -> InstrumentShape {
        InstrumentShape { in_value_streams: 2, in_control_streams: 0, out_value_streams: 1 }
    }

    /// The stream counts of the amplifier.
    pub fn declared_shape(&self) -> (shape: InstrumentShape)
        ensures
            shape == self.shape(),
    {
        InstrumentShape { in_value_streams: 2, in_control_streams: 0, out_value_streams: 1 }
    }
}

/// The mixer instrument.
///
/// This instrument accepts `INPUT_STREAMS` value streams.
///
/// The output stream is the sum of the input streams.
pub struct Mixer<const INPUT_STREAMS: usize, Note> {
    _phantom: core::marker::PhantomData<Note>,
}

impl<const INPUT_STREAMS: usize, Note> Mixer<INPUT_STREAMS, Note> {
    /// A mixer of `INPUT_STREAMS` streams.
    pub fn new() -> (mixer: Self)
        ensures
            mixer.shape() == (InstrumentShape {
                in_value_streams: INPUT_STREAMS,
                in_control_streams: 0,
                out_value_streams: 1,
            }),
    {
        Mixer { _phantom: core::marker::PhantomData }
    }

    /// `INPUT_STREAMS` value streams in, one out.
    pub open spec fn shape(&self) -> InstrumentShape {
        InstrumentShape {
            in_value_streams: INPUT_STREAMS,
            in_control_streams: 0,
            out_value_streams: 1,
        }
    }

    /// The stream counts of the mixer.
    pub fn declared_shape(&self) -> (shape: InstrumentShape)
        ensures
            shape == self.shape(),
    {
        InstrumentShape {
            in_value_streams: INPUT_STREAMS,
            in_control_streams: 0,
            out_value_streams: 1,
        }
    }
}

/// The positions that one sample of a delay line touches.
#[derive(Debug, Copy, Clone, PartialEq, Eq, Structural)]
pub struct DelayTap {
    /// Where the incoming sample is stored.
    pub write_index: usize,
    /// Where the outgoing sample is read, after the store.
    pub read_index: usize,
}

/// The delay instrument: one value stream in, one out, `delay` samples later.
///
/// The samples are kept in a circular buffer of `delay + 1` positions, which
/// the host holds. The delay tracks the position in it.
pub struct Delay<Note> {
    /// The delay time in samples.
    pub delay: u16,
    /// The position of the next store.
    pub buffer_index: usize,
    pub _phantom: core::marker::PhantomData<Note>,
}

impl<Note> Delay<Note> {
    /// The position stays within the `delay + 1` positions in use.
    pub open spec fn wf(&self) -> bool {
        self.buffer_index <= self.delay
    }

    /// The position after `index` in the circle of `delay + 1` positions.
    pub open spec fn following(&self, index: int) -> int {
        if index + 1 > self.delay {
            0
        } else {
            index + 1
        }
    }

    /// The position of the store of sample number `n`, counted from the
    /// current sample as 0.
    pub open spec fn write_index_at(&self, n: nat) -> int
        decreases n,
    {
        if n == 0 {
            self.buffer_index as int
        } else {
            self.following(self.write_index_at((n - 1) as nat))
        }
    }

    /// A delay of `delay` samples, at the start of its buffer.
    pub fn new(delay: u16) -> (line: Self)
        ensures
            line.wf(),
            line.delay == delay,
            line.buffer_index == 0,
    {
        Delay { delay, buffer_index: 0, _phantom: core::marker::PhantomData }
    }

    /// Whether the position is within the positions in use.
    pub fn is_consistent(&self) -> (ok: bool)
        ensures
            ok == self.wf(),
    {
        self.buffer_index <= self.delay as usize
    }

    /// One value stream in, one out.
    pub fn declared_shape(&self) -> (shape: InstrumentShape)
        ensures
            shape == (InstrumentShape {
                in_value_streams: 1,
                in_control_streams: 0,
                out_value_streams: 1,
            }),
    {
        InstrumentShape { in_value_streams: 1, in_control_streams: 0, out_value_streams: 1 }
    }

    /// Moves on by one sample: the incoming sample is stored at the current
    /// position, and the outgoing one is read at the position after it.
    pub fn advance(&mut self) -> (tap: DelayTap)
        requires
            old(self).wf(),
        ensures
            final(self).wf(),
            final(self).delay == old(self).delay,
            tap.write_index == old(self).buffer_index,
            tap.read_index == old(self).following(old(self).buffer_index as int),
            final(self).buffer_index == tap.read_index,
    {
        let write_index = self.buffer_index;
        if self.buffer_index >= self.delay as usize {
            self.buffer_index = 0;
        } else {
            self.buffer_index = self.buffer_index + 1;
        }
        DelayTap { write_index, read_index: self.buffer_index }
    }

    /// The store of a sample goes to the position `n` after the current one,
    /// around the circle.
    pub proof fn lemma_write_index_at(&self, n: nat)
        requires
            self.wf(),
        ensures
            self.write_index_at(n) == (self.buffer_index + n) % (self.delay + 1),
        decreases n,
    {
        let m = self.delay + 1;
        if n == 0 {
            vstd::arithmetic::div_mod::lemma_small_mod(self.buffer_index as nat, m as nat);
        } else {
            self.lemma_write_index_at((n - 1) as nat);
            let p = self.buffer_index + n - 1;
            vstd::arithmetic::div_mod::lemma_fundamental_div_mod(p, m);
            vstd::arithmetic::div_mod::lemma_mod_bound(p, m);
            let q = p / m;
            let r = p % m;
            if r + 1 > self.delay {
                assert(p + 1 == m * (q + 1) + 0) by (nonlinear_arith)
                    requires
                        p == m * q + r,
                        r + 1 == m,
                ;
                vstd::arithmetic::div_mod::lemma_fundamental_div_mod_converse(p + 1, m, q + 1, 0);
            } else {
                vstd::arithmetic::div_mod::lemma_fundamental_div_mod_converse(p + 1, m, q, r + 1);
            }
        }
    }

    /// A sample leaves the delay `delay` samples after it came in: the read
    /// of sample number `n + delay` is at the position of the store of sample
    /// number `n`.
    pub proof fn lemma_latency(&self, n: nat)
        requires
            self.wf(),
        ensures
            self.following(self.write_index_at(n + self.delay as nat)) == self.write_index_at(n),
    {
        let m = self.delay + 1;
        let k = n + self.delay as nat;
        self.lemma_write_index_at(n);
        self.lemma_write_index_at(k);
        self.lemma_write_index_at(k + 1);
        assert(self.write_index_at(k + 1) == self.following(self.write_index_at(k)));
        vstd::arithmetic::div_mod::lemma_mod_add_multiples_vanish(self.buffer_index + n, m);
    }
}

} // verus!
