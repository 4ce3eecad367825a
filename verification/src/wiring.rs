//! Validation of a wiring before the first step.
//!
//! Stepping reads the streams that the connections name without checking
//! them. A wiring is checked once, at setup: it must have no cycle, and every
//! connection that a step follows must name an instrument and a stream that
//! exist.

use vstd::prelude::*;
use crate::graph::InstrumentGraph;
use crate::step::StepAction;

verus! {

impl<
    const SIZE: usize,
    const CONTROL_SIZE: usize,
    const CONNECTION_SIZE: usize,
    const OUTPUT_CHANNELS: usize,
> InstrumentGraph<SIZE, CONTROL_SIZE, CONNECTION_SIZE, OUTPUT_CHANNELS> {
    /// Entry `j` of the connection list of `v`, if `v` holds an instrument,
    /// comes from an instrument and names streams that both ends declare.
    pub open spec fn value_entry_wired(&self, v: int, j: int) -> bool {
        match self.value_connection(v, j) {
            Some(c) => self.filled(v) ==> self.filled(c.source_index as int)
                && c.source_stream_index < self.shape(c.source_index as int).out_value_streams
                && c.destination_stream_index < self.shape(v).in_value_streams,
            None => true,
        }
    }

    /// The binding of `v`, if `v` holds an instrument with control streams,
    /// names a control source slot.
    pub open spec fn control_wired(&self, v: int) -> bool {
        self.filled(v) && self.shape(v).in_control_streams > 0
            ==> match self.control_binding(v) {
            Some(c) => c.source_index < CONTROL_SIZE,
            None => true,
        }
    }

    /// Entry `j` of the connection list of channel `c` names a slot, and a
    /// stream that the instrument there, if any, declares.
    pub open spec fn output_entry_wired(&self, c: int, j: int) -> bool {
        match self.destination_connection(c, j) {
            Some(d) => d.source_index < SIZE && (self.filled(d.source_index as int)
                ==> d.source_stream_index < self.shape(d.source_index as int).out_value_streams),
            None => true,
        }
    }

    /// Every connection and binding is wired.
    pub open spec fn connections_wired(&self) -> bool {
        &&& forall|v: int, j: int| #[trigger] self.value_entry_wired(v, j)
        &&& forall|v: int| #[trigger] self.control_wired(v)
        &&& forall|c: int, j: int| #[trigger] self.output_entry_wired(c, j)
    }

    /// The wiring can be stepped: it has no cycle, and every connection and
    /// binding is wired.
    pub open spec fn well_wired(&self) -> bool {
        self.is_acyclic() && self.connections_wired()
    }

    /// The action names slots that are taken and streams that are declared.
    pub open spec fn action_valid(&self, action: StepAction) -> bool {
        match action {
            StepAction::ClearOutput => true,
            StepAction::FetchControl { source } => self.has_control_source(source as int),
            StepAction::FeedValue { source, source_stream, destination, destination_stream } => {
                &&& self.filled(source as int)
                &&& self.filled(destination as int)
                &&& source_stream < self.shape(source as int).out_value_streams
                &&& destination_stream < self.shape(destination as int).in_value_streams
            },
            StepAction::FeedControl { source, destination, destination_stream } => {
                &&& self.has_control_source(source as int)
                &&& self.filled(destination as int)
                &&& destination_stream < self.shape(destination as int).in_control_streams
            },
            StepAction::Process { instrument } => self.filled(instrument as int),
            StepAction::Accumulate { channel, source, source_stream } => {
                &&& channel < OUTPUT_CHANNELS
                &&& self.filled(source as int)
                &&& source_stream < self.shape(source as int).out_value_streams
            },
        }
    }

    /// Every action in `actions` is valid.
    pub open spec fn all_valid(&self, actions: Seq<StepAction>) -> bool {
        forall|k: int| 0 <= k < actions.len() ==> self.action_valid(#[trigger] actions[k])
    }

    proof fn lemma_fetch_actions_valid(&self, n: int)
        requires
            n <= CONTROL_SIZE,
        ensures
            self.all_valid(self.fetch_actions(n)),
        decreases n,
    {
        if n > 0 {
            self.lemma_fetch_actions_valid(n - 1);
        }
    }

    proof fn lemma_feed_value_actions_valid(&self, v: int, n: int)
        requires
            self.filled(v),
            forall|a: int, j: int| #[trigger] self.value_entry_wired(a, j),
        ensures
            self.all_valid(self.feed_value_actions(v, n)),
        decreases n,
    {
        if n > 0 {
            self.lemma_feed_value_actions_valid(v, n - 1);
            assert(self.value_entry_wired(v, n - 1));
        }
    }

    proof fn lemma_instrument_actions_valid(&self, v: int)
        requires
            self.filled(v),
            forall|a: int, j: int| #[trigger] self.value_entry_wired(a, j),
        ensures
            self.all_valid(self.instrument_actions(v)),
    {
        self.lemma_feed_value_actions_valid(v, CONNECTION_SIZE as int);
    }

    proof fn lemma_order_actions_valid(&self, order: Seq<int>, n: int)
        requires
            n <= order.len(),
            forall|k: int| 0 <= k < order.len() ==> self.filled(#[trigger] order[k]),
            forall|a: int, j: int| #[trigger] self.value_entry_wired(a, j),
        ensures
            self.all_valid(self.order_actions(order, n)),
        decreases n,
    {
        if n > 0 {
            self.lemma_order_actions_valid(order, n - 1);
            self.lemma_instrument_actions_valid(order[n - 1]);
        }
    }

    proof fn lemma_channel_actions_valid(&self, c: int, n: int)
        requires
            0 <= c < OUTPUT_CHANNELS,
            forall|a: int, j: int| #[trigger] self.output_entry_wired(a, j),
        ensures
            self.all_valid(self.channel_actions(c, n)),
        decreases n,
    {
        if n > 0 {
            self.lemma_channel_actions_valid(c, n - 1);
            assert(self.output_entry_wired(c, n - 1));
        }
    }

    proof fn lemma_output_actions_valid(&self, n: int)
        requires
            n <= OUTPUT_CHANNELS,
            forall|a: int, j: int| #[trigger] self.output_entry_wired(a, j),
        ensures
            self.all_valid(self.output_actions(n)),
        decreases n,
    {
        if n > 0 {
            self.lemma_output_actions_valid(n - 1);
            self.lemma_channel_actions_valid(n - 1, CONNECTION_SIZE as int);
        }
    }

    /// On a wiring that can be stepped, every action of a step names slots
    /// that are taken and streams that are declared.
    pub proof fn lemma_step_actions_valid(&self)
        requires
            self.well_wired(),
        ensures
            self.all_valid(self.step_actions()),
    {
        let order = self.process_order();
        self.lemma_process_order();
        self.lemma_fetch_actions_valid(CONTROL_SIZE as int);
        self.lemma_order_actions_valid(order, order.len() as int);
        self.lemma_output_actions_valid(OUTPUT_CHANNELS as int);
    }

    fn check_value_connections(&self, v: usize) -> (ok: bool)
        requires
            v < SIZE,
        ensures
            ok == (forall|j: int| #[trigger] self.value_entry_wired(v as int, j)),
    {
        let shape = match self.instruments[v] {
            Some(shape) => shape,
            None => {
                return true;
            },
        };
        let mut j: usize = 0;
        while j < CONNECTION_SIZE
            invariant
                j <= CONNECTION_SIZE,
                v < SIZE,
                self.instruments[v as int] == Some(shape),
                forall|e: int| 0 <= e < j ==> #[trigger] self.value_entry_wired(v as int, e),
            decreases CONNECTION_SIZE - j,
        {
            if let Some(c) = self.value_stream_connections[v][j] {
                let wired = match self.shape_at(c.source_index) {
                    Some(source) => c.source_stream_index < source.out_value_streams
                        && c.destination_stream_index < shape.in_value_streams,
                    None => false,
                };
                if !wired {
                    assert(!self.value_entry_wired(v as int, j as int));
                    return false;
                }
            }
            j += 1;
        }
        assert forall|e: int| #[trigger] self.value_entry_wired(v as int, e) by {
            if !(0 <= e < CONNECTION_SIZE) {
                assert(self.value_connection(v as int, e).is_none());
            }
        }
        true
    }

    fn check_control_source(&self, v: usize) -> (ok: bool)
        requires
            v < SIZE,
        ensures
            ok == self.control_wired(v as int),
    {
        match (self.instruments[v], self.instruments_control_sources[v]) {
            (Some(shape), Some(binding)) => shape.in_control_streams == 0 || binding.source_index
                < CONTROL_SIZE,
            _ => true,
        }
    }

    fn check_output_connections(&self, c: usize) -> (ok: bool)
        requires
            c < OUTPUT_CHANNELS,
        ensures
            ok == (forall|j: int| #[trigger] self.output_entry_wired(c as int, j)),
    {
        let mut j: usize = 0;
        while j < CONNECTION_SIZE
            invariant
                j <= CONNECTION_SIZE,
                c < OUTPUT_CHANNELS,
                forall|e: int| 0 <= e < j ==> #[trigger] self.output_entry_wired(c as int, e),
            decreases CONNECTION_SIZE - j,
        {
            if let Some(d) = self.destination_connections[c][j] {
                let wired = d.source_index < SIZE && match self.instruments[d.source_index] {
                    Some(source) => d.source_stream_index < source.out_value_streams,
                    None => true,
                };
                if !wired {
                    assert(!self.output_entry_wired(c as int, j as int));
                    return false;
                }
            }
            j += 1;
        }
        assert forall|e: int| #[trigger] self.output_entry_wired(c as int, e) by {
            if !(0 <= e < CONNECTION_SIZE) {
                assert(self.destination_connection(c as int, e).is_none());
            }
        }
        true
    }

    /// The stream counts of the instrument in slot `index`, if there is one.
    pub fn shape_at(&self, index: usize) -> (shape: Option<crate::graph::InstrumentShape>)
        ensures
            shape.is_some() == self.filled(index as int),
            shape.is_some() ==> shape == self.instruments[index as int],
    {
        if index < SIZE {
            self.instruments[index]
        } else {
            None
        }
    }

    /// Checks, once the graph is set up, whether it can be stepped.
    pub fn check_wiring(&self) -> (ok: bool)
        ensures
            ok == self.well_wired(),
    {
        self.find_instrument_process_order().is_some() && self.check_connections()
    }

    /// Checks whether every connection and binding is wired.
    pub fn check_connections(&self) -> (ok: bool)
        ensures
            ok == self.connections_wired(),
    {
        let mut v: usize = 0;
        while v < SIZE
            invariant
                v <= SIZE,
                forall|a: int, j: int| 0 <= a < v ==> #[trigger] self.value_entry_wired(a, j),
                forall|a: int| 0 <= a < v ==> #[trigger] self.control_wired(a),
            decreases SIZE - v,
        {
            if !self.check_value_connections(v) || !self.check_control_source(v) {
                return false;
            }
            v += 1;
        }
        let mut c: usize = 0;
        while c < OUTPUT_CHANNELS
            invariant
                c <= OUTPUT_CHANNELS,
                forall|a: int, j: int| 0 <= a < c ==> #[trigger] self.output_entry_wired(a, j),
            decreases OUTPUT_CHANNELS - c,
        {
            if !self.check_output_connections(c) {
                return false;
            }
            c += 1;
        }
        assert forall|a: int, j: int| #[trigger] self.value_entry_wired(a, j) by {
            if !(0 <= a < SIZE) {
                assert(self.value_connection(a, j).is_none());
            }
        }
        assert forall|a: int, j: int| #[trigger] self.output_entry_wired(a, j) by {
            if !(0 <= a < OUTPUT_CHANNELS) {
                assert(self.destination_connection(a, j).is_none());
            }
        }
        true
    }
}

} // verus!
