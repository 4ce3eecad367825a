//! One block step of the graph, laid out as the actions that the host
//! carries out in turn on its sample buffers.

use vstd::prelude::*;
use crate::graph::InstrumentGraph;
use crate::schedule::{fed_in_turn, run_order};

verus! {

/// One action of a block step.
#[derive(Debug, Copy, Clone, PartialEq, Eq, Structural)]
pub enum StepAction {
    /// Set every output channel to zero.
    ClearOutput,
    /// Advance a control source to its next block.
    FetchControl { source: usize },
    /// Add the current output block of `source` to an input stream of `destination`.
    FeedValue { source: usize, source_stream: usize, destination: usize, destination_stream: usize },
    /// Hand the current block of a control source to a control stream of `destination`.
    FeedControl { source: usize, destination: usize, destination_stream: usize },
    /// Run an instrument on its gathered input.
    Process { instrument: usize },
    /// Add the current output block of `source` to an output channel.
    Accumulate { channel: usize, source: usize, source_stream: usize },
}

impl<
    const SIZE: usize,
    const CONTROL_SIZE: usize,
    const CONNECTION_SIZE: usize,
    const OUTPUT_CHANNELS: usize,
> InstrumentGraph<SIZE, CONTROL_SIZE, CONNECTION_SIZE, OUTPUT_CHANNELS> {
    /// The control source whose block the instrument in slot `v` receives.
    pub open spec fn control_source_of(&self, v: int) -> Option<usize> {
        match self.control_binding(v) {
            Some(c) => if self.has_control_source(c.source_index as int) {
                Some(c.source_index)
            } else {
                None
            },
            None => None,
        }
    }

    /// Every taken control source slot below `n` is advanced, in slot order.
    pub open spec fn fetch_actions(&self, n: int) -> Seq<StepAction>
        decreases n,
    {
        if n <= 0 {
            Seq::empty()
        } else if self.has_control_source(n - 1) {
            self.fetch_actions(n - 1).push(StepAction::FetchControl { source: (n - 1) as usize })
        } else {
            self.fetch_actions(n - 1)
        }
    }

    /// The first `n` entries of the connection list of `v` are fed, in list order.
    pub open spec fn feed_value_actions(&self, v: int, n: int) -> Seq<StepAction>
        decreases n,
    {
        if n <= 0 {
            Seq::empty()
        } else {
            match self.value_connection(v, n - 1) {
                Some(c) => self.feed_value_actions(v, n - 1).push(
                    StepAction::FeedValue {
                        source: c.source_index,
                        source_stream: c.source_stream_index,
                        destination: v as usize,
                        destination_stream: c.destination_stream_index,
                    },
                ),
                None => self.feed_value_actions(v, n - 1),
            }
        }
    }

    /// The bound control source, if any, is handed to the first `n` control streams of `v`.
    pub open spec fn feed_control_actions(&self, v: int, n: int) -> Seq<StepAction> {
        match self.control_source_of(v) {
            Some(s) => Seq::new(
                n as nat,
                |j: int|
                    StepAction::FeedControl {
                        source: s,
                        destination: v as usize,
                        destination_stream: j as usize,
                    },
            ),
            None => Seq::empty(),
        }
    }

    /// What one instrument does in a step: gather the value streams, take the
    /// control block on every control stream, then run.
    pub open spec fn instrument_actions(&self, v: int) -> Seq<StepAction> {
        self.feed_value_actions(v, CONNECTION_SIZE as int) + self.feed_control_actions(
            v,
            self.shape(v).in_control_streams as int,
        ) + seq![StepAction::Process { instrument: v as usize }]
    }

    /// The actions of the first `n` instruments of `order`.
    pub open spec fn order_actions(&self, order: Seq<int>, n: int) -> Seq<StepAction>
        decreases n,
    {
        if n <= 0 {
            Seq::empty()
        } else {
            self.order_actions(order, n - 1) + self.instrument_actions(order[n - 1])
        }
    }

    /// The first `n` entries of the connection list of channel `c` are
    /// accumulated, in list order. An entry whose source slot is empty adds nothing.
    pub open spec fn channel_actions(&self, c: int, n: int) -> Seq<StepAction>
        decreases n,
    {
        if n <= 0 {
            Seq::empty()
        } else {
            match self.destination_connection(c, n - 1) {
                Some(d) => if self.filled(d.source_index as int) {
                    self.channel_actions(c, n - 1).push(
                        StepAction::Accumulate {
                            channel: c as usize,
                            source: d.source_index,
                            source_stream: d.source_stream_index,
                        },
                    )
                } else {
                    self.channel_actions(c, n - 1)
                },
                None => self.channel_actions(c, n - 1),
            }
        }
    }

    /// The accumulations into the first `n` output channels.
    pub open spec fn output_actions(&self, n: int) -> Seq<StepAction>
        decreases n,
    {
        if n <= 0 {
            Seq::empty()
        } else {
            self.output_actions(n - 1) + self.channel_actions(n - 1, CONNECTION_SIZE as int)
        }
    }

    /// The actions of one block step: clear the output channels, advance
    /// every control source, run the instruments in process order, and sum
    /// the connected outputs into the channels.
    pub open spec fn step_actions(&self) -> Seq<StepAction> {
        seq![StepAction::ClearOutput] + self.fetch_actions(CONTROL_SIZE as int)
            + self.order_actions(self.process_order(), self.process_order().len() as int)
            + self.output_actions(OUTPUT_CHANNELS as int)
    }

    fn push_fetch_actions(&self, actions: &mut Vec<StepAction>)
        ensures
            final(actions)@ == old(actions)@ + self.fetch_actions(CONTROL_SIZE as int),
    {
        let ghost base = actions@;
        let mut i: usize = 0;
        assert(actions@ =~= base + self.fetch_actions(0));
        while i < CONTROL_SIZE
            invariant
                i <= CONTROL_SIZE,
                actions@ == base + self.fetch_actions(i as int),
            decreases CONTROL_SIZE - i,
        {
            if self.control_sources[i] {
                actions.push(StepAction::FetchControl { source: i });
            }
            i += 1;
            assert(actions@ =~= base + self.fetch_actions(i as int));
        }
    }

    fn push_instrument_actions(&self, v: usize, actions: &mut Vec<StepAction>)
        requires
            self.filled(v as int),
        ensures
            final(actions)@ == old(actions)@ + self.instrument_actions(v as int),
    {
        let ghost base = actions@;
        let mut j: usize = 0;
        assert(actions@ =~= base + self.feed_value_actions(v as int, 0));
        while j < CONNECTION_SIZE
            invariant
                j <= CONNECTION_SIZE,
                v < SIZE,
                actions@ == base + self.feed_value_actions(v as int, j as int),
            decreases CONNECTION_SIZE - j,
        {
            if let Some(c) = self.value_stream_connections[v][j] {
                actions.push(
                    StepAction::FeedValue {
                        source: c.source_index,
                        source_stream: c.source_stream_index,
                        destination: v,
                        destination_stream: c.destination_stream_index,
                    },
                );
            }
            j += 1;
            assert(actions@ =~= base + self.feed_value_actions(v as int, j as int));
        }
        let ghost fed = actions@;
        let shape = self.instruments[v].unwrap();
        if let Some(binding) = self.instruments_control_sources[v] {
            if binding.source_index < CONTROL_SIZE && self.control_sources[binding.source_index] {
                let mut s: usize = 0;
                assert(actions@ =~= fed + self.feed_control_actions(v as int, 0));
                while s < shape.in_control_streams
                    invariant
                        s <= shape.in_control_streams,
                        self.control_source_of(v as int) == Some(binding.source_index),
                        actions@ == fed + self.feed_control_actions(v as int, s as int),
                    decreases shape.in_control_streams - s,
                {
                    actions.push(
                        StepAction::FeedControl {
                            source: binding.source_index,
                            destination: v,
                            destination_stream: s,
                        },
                    );
                    s += 1;
                    assert(actions@ =~= fed + self.feed_control_actions(v as int, s as int));
                }
            }
        }
        assert(actions@ =~= fed + self.feed_control_actions(
            v as int,
            shape.in_control_streams as int,
        ));
        actions.push(StepAction::Process { instrument: v });
        assert(actions@ =~= base + self.instrument_actions(v as int));
    }

    fn push_channel_actions(&self, c: usize, actions: &mut Vec<StepAction>)
        requires
            c < OUTPUT_CHANNELS,
        ensures
            final(actions)@ == old(actions)@ + self.channel_actions(
                c as int,
                CONNECTION_SIZE as int,
            ),
    {
        let ghost base = actions@;
        let mut j: usize = 0;
        assert(actions@ =~= base + self.channel_actions(c as int, 0));
        while j < CONNECTION_SIZE
            invariant
                j <= CONNECTION_SIZE,
                c < OUTPUT_CHANNELS,
                actions@ == base + self.channel_actions(c as int, j as int),
            decreases CONNECTION_SIZE - j,
        {
            if let Some(d) = self.destination_connections[c][j] {
                if self.is_filled(d.source_index) {
                    actions.push(
                        StepAction::Accumulate {
                            channel: c,
                            source: d.source_index,
                            source_stream: d.source_stream_index,
                        },
                    );
                }
            }
            j += 1;
            assert(actions@ =~= base + self.channel_actions(c as int, j as int));
        }
    }

    /// Lays out the next block step in `actions`, in place of what it held:
    /// clear the output channels, advance every control source, run the
    /// instruments in process order, each on the outputs of its sources and
    /// the block of its control source, and sum the connected outputs into
    /// the channels. Every action names slots and streams that exist, and
    /// every value stream is fed after its source has run and before its
    /// destination runs.
    ///
    /// A buffer that is handed in again step after step is not reallocated
    /// while the wiring stays as it is.
    pub fn process_next_into(&self, actions: &mut Vec<StepAction>)
        requires
            self.well_wired(),
        ensures
            final(actions)@ == self.step_actions(),
            self.all_valid(final(actions)@),
            run_order(final(actions)@) == self.process_order(),
            fed_in_turn(final(actions)@),
    {
        let order = self.get_instrument_process_order();
        self.lay_out_step(&order, actions);
    }

    /// Checks the wiring and, if it can be stepped, lays out the next block
    /// step in `actions` as `process_next_into` does. Returns whether it did;
    /// if not, `actions` is left as it was.
    pub fn try_process_next_into(&self, actions: &mut Vec<StepAction>) -> (ok: bool)
        ensures
            ok == self.well_wired(),
            ok ==> final(actions)@ == self.step_actions() && self.all_valid(final(actions)@)
                && run_order(final(actions)@) == self.process_order() && fed_in_turn(
                final(actions)@,
            ),
            !ok ==> final(actions)@ == old(actions)@,
    {
        match self.find_instrument_process_order() {
            Some(order) => {
                if self.check_connections() {
                    self.lay_out_step(&order, actions);
                    true
                } else {
                    false
                }
            },
            None => false,
        }
    }

    fn lay_out_step(&self, order: &[usize; SIZE], actions: &mut Vec<StepAction>)
        requires
            self.well_wired(),
            self.lays_out(*order),
        ensures
            final(actions)@ == self.step_actions(),
            self.all_valid(final(actions)@),
            run_order(final(actions)@) == self.process_order(),
            fed_in_turn(final(actions)@),
    {
        proof {
            self.lemma_step_actions_valid();
            self.lemma_step_runs_in_process_order();
            self.lemma_step_feeds_in_turn();
        }
        let ghost o = self.process_order();
        proof {
            self.lemma_process_order();
        }
        actions.clear();
        actions.push(StepAction::ClearOutput);
        self.push_fetch_actions(actions);
        let ghost base = actions@;
        let mut k: usize = 0;
        assert(actions@ =~= base + self.order_actions(o, 0));
        while k < SIZE && order[k] != usize::MAX
            invariant
                k <= SIZE,
                k <= o.len(),
                o == self.process_order(),
                self.scheduled(o),
                self.lays_out(*order),
                actions@ == base + self.order_actions(o, k as int),
            decreases SIZE - k,
        {
            assert(self.filled(o[k as int]));
            self.push_instrument_actions(order[k], actions);
            k += 1;
            assert(actions@ =~= base + self.order_actions(o, k as int));
        }
        assert(k == o.len()) by {
            if k < o.len() {
                assert(self.filled(o[k as int]));
            }
        }
        let ghost ran = actions@;
        let mut c: usize = 0;
        assert(actions@ =~= ran + self.output_actions(0));
        while c < OUTPUT_CHANNELS
            invariant
                c <= OUTPUT_CHANNELS,
                actions@ == ran + self.output_actions(c as int),
            decreases OUTPUT_CHANNELS - c,
        {
            self.push_channel_actions(c, actions);
            c += 1;
            assert(actions@ =~= ran + self.output_actions(c as int));
        }
    }

    /// Lays out the next block step in a new buffer.
    pub fn process_next(&self) -> (actions: Vec<StepAction>)
        requires
            self.well_wired(),
        ensures
            actions@ == self.step_actions(),
            self.all_valid(actions@),
            run_order(actions@) == self.process_order(),
            fed_in_turn(actions@),
    {
        let mut actions: Vec<StepAction> = Vec::new();
        self.process_next_into(&mut actions);
        actions
    }
}

} // verus!
