//! The instrument graph: slots, wiring and the order of one processing step.
//!
//! The graph records which slots hold an instrument, the stream counts of each
//! instrument, and the connections between them. From this wiring it resolves
//! the order in which the instruments run and lays out the actions of one
//! block step for the host to carry out on its sample buffers.

use vstd::prelude::*;

verus! {

/// The stream counts that an instrument declares.
#[derive(Debug, Copy, Clone)]
pub struct InstrumentShape {
    pub in_value_streams: usize,
    pub in_control_streams: usize,
    pub out_value_streams: usize,
}

/// The control source bound to an instrument.
#[derive(Debug, Copy, Clone)]
pub struct ControlStreamConnection {
    pub source_index: usize,
}

/// An edge from an output stream of one instrument into an input stream of another.
#[derive(Debug, Copy, Clone)]
pub struct ValueStreamConnection {
    pub source_index: usize,
    pub source_stream_index: usize,
    pub destination_stream_index: usize,
}

/// An edge from an output stream of an instrument into an output channel.
#[derive(Debug, Copy, Clone)]
pub struct DestinationConnection {
    pub source_index: usize,
    pub source_stream_index: usize,
}

/// A fixed-capacity graph of instruments and control sources.
///
/// Slots are addressed by their index for the life of the graph: nothing is
/// ever moved or removed.
pub struct InstrumentGraph<
    const SIZE: usize,
    const CONTROL_SIZE: usize,
    const CONNECTION_SIZE: usize,
    const OUTPUT_CHANNELS: usize,
> {
    /// The instruments in the graph, by their declared stream counts.
    pub instruments: [Option<InstrumentShape>; SIZE],
    /// Which control source slots are taken.
    pub control_sources: [bool; CONTROL_SIZE],
    /// The control source of each instrument.
    pub instruments_control_sources: [Option<ControlStreamConnection>; SIZE],
    /// The incoming value stream connections of each instrument.
    pub value_stream_connections: [[Option<ValueStreamConnection>; CONNECTION_SIZE]; SIZE],
    /// The connections into each output channel.
    pub destination_connections: [[Option<DestinationConnection>; CONNECTION_SIZE]; OUTPUT_CHANNELS],
}

impl<
    const SIZE: usize,
    const CONTROL_SIZE: usize,
    const CONNECTION_SIZE: usize,
    const OUTPUT_CHANNELS: usize,
> InstrumentGraph<SIZE, CONTROL_SIZE, CONNECTION_SIZE, OUTPUT_CHANNELS> {
    /// Slot `i` holds an instrument.
    pub open spec fn filled(&self, i: int) -> bool {
        0 <= i < SIZE && self.instruments[i].is_some()
    }

    /// The stream counts of the instrument in slot `v`.
    pub open spec fn shape(&self, v: int) -> InstrumentShape {
        self.instruments[v].unwrap()
    }

    /// Control source slot `i` is taken.
    pub open spec fn has_control_source(&self, i: int) -> bool {
        0 <= i < CONTROL_SIZE && self.control_sources[i]
    }

    /// Entry `j` of the connection list of instrument `v`.
    pub open spec fn value_connection(&self, v: int, j: int) -> Option<ValueStreamConnection> {
        if 0 <= v < SIZE && 0 <= j < CONNECTION_SIZE {
            self.value_stream_connections[v][j]
        } else {
            None
        }
    }

    /// Entry `j` of the connection list of output channel `c`.
    pub open spec fn destination_connection(&self, c: int, j: int) -> Option<
        DestinationConnection,
    > {
        if 0 <= c < OUTPUT_CHANNELS && 0 <= j < CONNECTION_SIZE {
            self.destination_connections[c][j]
        } else {
            None
        }
    }

    /// The control source bound to instrument `v`.
    pub open spec fn control_binding(&self, v: int) -> Option<ControlStreamConnection> {
        if 0 <= v < SIZE {
            self.instruments_control_sources[v]
        } else {
            None
        }
    }

    /// The instrument slots are as in `before`.
    pub open spec fn keeps_instruments(&self, before: &Self) -> bool {
        &&& self.instruments == before.instruments
        &&& forall|i: int| #[trigger] self.filled(i) == before.filled(i)
    }

    /// The control source slots are as in `before`.
    pub open spec fn keeps_control_sources(&self, before: &Self) -> bool {
        &&& self.control_sources == before.control_sources
        &&& forall|i: int| #[trigger] self.has_control_source(i) == before.has_control_source(i)
    }

    /// The bindings of control sources are as in `before`.
    pub open spec fn keeps_control_bindings(&self, before: &Self) -> bool {
        &&& self.instruments_control_sources == before.instruments_control_sources
        &&& forall|v: int| #[trigger] self.control_binding(v) == before.control_binding(v)
    }

    /// The value stream connections are as in `before`.
    pub open spec fn keeps_value_connections(&self, before: &Self) -> bool {
        &&& self.value_stream_connections == before.value_stream_connections
        &&& forall|v: int, j: int|
            #[trigger] self.value_connection(v, j) == before.value_connection(v, j)
    }

    /// The connections into the output channels are as in `before`.
    pub open spec fn keeps_destination_connections(&self, before: &Self) -> bool {
        &&& self.destination_connections == before.destination_connections
        &&& forall|c: int, j: int|
            #[trigger] self.destination_connection(c, j) == before.destination_connection(c, j)
    }

    /// Nothing has been added or connected.
    pub open spec fn is_empty(&self) -> bool {
        &&& forall|i: int| !self.filled(i)
        &&& forall|i: int| !self.has_control_source(i)
        &&& forall|v: int| (#[trigger] self.control_binding(v)).is_none()
        &&& forall|v: int, j: int| (#[trigger] self.value_connection(v, j)).is_none()
        &&& forall|c: int, j: int| (#[trigger] self.destination_connection(c, j)).is_none()
    }

    /// An empty graph.
    pub fn new() -> (graph: Self)
        ensures
            graph.is_empty(),
    {
        InstrumentGraph {
            instruments: [None; SIZE],
            control_sources: [false; CONTROL_SIZE],
            instruments_control_sources: [None; SIZE],
            value_stream_connections: [[None; CONNECTION_SIZE]; SIZE],
            destination_connections: [[None; CONNECTION_SIZE]; OUTPUT_CHANNELS],
        }
    }

    /// The first instrument slot that is free, if there is one.
    pub fn free_instrument_slot(&self) -> (slot: Option<usize>)
        ensures
            match slot {
                Some(i) => i < SIZE && !self.filled(i as int) && forall|k: int|
                    0 <= k < i ==> self.filled(k),
                None => forall|k: int| 0 <= k < SIZE ==> self.filled(k),
            },
    {
        let mut i: usize = 0;
        while i < SIZE
            invariant
                i <= SIZE,
                forall|k: int| 0 <= k < i ==> self.filled(k),
            decreases SIZE - i,
        {
            if self.instruments[i].is_none() {
                return Some(i);
            }
            i += 1;
        }
        None
    }

    /// The first control source slot that is free, if there is one.
    pub fn free_control_source_slot(&self) -> (slot: Option<usize>)
        ensures
            match slot {
                Some(i) => i < CONTROL_SIZE && !self.has_control_source(i as int) && forall|k: int|
                    0 <= k < i ==> self.has_control_source(k),
                None => forall|k: int| 0 <= k < CONTROL_SIZE ==> self.has_control_source(k),
            },
    {
        let mut i: usize = 0;
        while i < CONTROL_SIZE
            invariant
                i <= CONTROL_SIZE,
                forall|k: int| 0 <= k < i ==> self.has_control_source(k),
            decreases CONTROL_SIZE - i,
        {
            if !self.control_sources[i] {
                return Some(i);
            }
            i += 1;
        }
        None
    }

    /// Puts an instrument with the given stream counts into the first free slot
    /// and returns the slot's index.
    pub fn add_instrument(&mut self, shape: InstrumentShape) -> (slot: usize)
        requires
            exists|k: int| 0 <= k < SIZE && !old(self).filled(k),
        ensures
            slot < SIZE,
            !old(self).filled(slot as int),
            forall|k: int| 0 <= k < slot ==> old(self).filled(k),
            final(self).instruments@ == old(self).instruments@.update(slot as int, Some(shape)),
            forall|i: int| #[trigger] final(self).filled(i) == (i == slot || old(self).filled(i)),
            final(self).keeps_control_sources(old(self)),
            final(self).keeps_control_bindings(old(self)),
            final(self).keeps_value_connections(old(self)),
            final(self).keeps_destination_connections(old(self)),
    {
        let free = self.free_instrument_slot();
        let slot = free.unwrap();
        self.instruments[slot] = Some(shape);
        slot
    }

    /// Takes the first free control source slot and returns its index.
    pub fn add_control_source(&mut self) -> (slot: usize)
        requires
            exists|k: int| 0 <= k < CONTROL_SIZE && !old(self).has_control_source(k),
        ensures
            slot < CONTROL_SIZE,
            !old(self).has_control_source(slot as int),
            forall|k: int| 0 <= k < slot ==> old(self).has_control_source(k),
            final(self).control_sources@ == old(self).control_sources@.update(slot as int, true),
            forall|i: int|
                #[trigger] final(self).has_control_source(i) == (i == slot || old(
                    self,
                ).has_control_source(i)),
            final(self).keeps_instruments(old(self)),
            final(self).keeps_control_bindings(old(self)),
            final(self).keeps_value_connections(old(self)),
            final(self).keeps_destination_connections(old(self)),
    {
        let free = self.free_control_source_slot();
        let slot = free.unwrap();
        self.control_sources[slot] = true;
        slot
    }

    /// Binds a control source to an instrument, in place of any earlier binding.
    pub fn connect_control_source(&mut self, control_source_index: usize, instrument_index: usize)
        requires
            control_source_index < CONTROL_SIZE,
            instrument_index < SIZE,
        ensures
            final(self).instruments_control_sources@ == old(
                self,
            ).instruments_control_sources@.update(
                instrument_index as int,
                Some(ControlStreamConnection { source_index: control_source_index }),
            ),
            forall|v: int|
                #[trigger] final(self).control_binding(v) == if v == instrument_index {
                    Some(ControlStreamConnection { source_index: control_source_index })
                } else {
                    old(self).control_binding(v)
                },
            final(self).keeps_instruments(old(self)),
            final(self).keeps_control_sources(old(self)),
            final(self).keeps_value_connections(old(self)),
            final(self).keeps_destination_connections(old(self)),
    {
        self.instruments_control_sources[instrument_index] = Some(
            ControlStreamConnection { source_index: control_source_index },
        );
    }

    /// The first free entry in the connection list of instrument `destination_index`.
    pub fn free_value_connection(&self, destination_index: usize) -> (entry: Option<usize>)
        requires
            destination_index < SIZE,
        ensures
            match entry {
                Some(j) => j < CONNECTION_SIZE && self.value_connection(
                    destination_index as int,
                    j as int,
                ).is_none() && forall|k: int|
                    0 <= k < j ==> (#[trigger] self.value_connection(
                        destination_index as int,
                        k,
                    )).is_some(),
                None => forall|k: int|
                    0 <= k < CONNECTION_SIZE ==> (#[trigger] self.value_connection(
                        destination_index as int,
                        k,
                    )).is_some(),
            },
    {
        let mut j: usize = 0;
        while j < CONNECTION_SIZE
            invariant
                j <= CONNECTION_SIZE,
                destination_index < SIZE,
                forall|k: int|
                    0 <= k < j ==> (#[trigger] self.value_connection(
                        destination_index as int,
                        k,
                    )).is_some(),
            decreases CONNECTION_SIZE - j,
        {
            if self.value_stream_connections[destination_index][j].is_none() {
                return Some(j);
            }
            j += 1;
        }
        None
    }

    /// The first free entry in the connection list of output channel `output_channel_index`.
    pub fn free_destination_connection(&self, output_channel_index: usize) -> (entry: Option<usize>)
        requires
            output_channel_index < OUTPUT_CHANNELS,
        ensures
            match entry {
                Some(j) => j < CONNECTION_SIZE && self.destination_connection(
                    output_channel_index as int,
                    j as int,
                ).is_none() && forall|k: int|
                    0 <= k < j ==> (#[trigger] self.destination_connection(
                        output_channel_index as int,
                        k,
                    )).is_some(),
                None => forall|k: int|
                    0 <= k < CONNECTION_SIZE ==> (#[trigger] self.destination_connection(
                        output_channel_index as int,
                        k,
                    )).is_some(),
            },
    {
        let mut j: usize = 0;
        while j < CONNECTION_SIZE
            invariant
                j <= CONNECTION_SIZE,
                output_channel_index < OUTPUT_CHANNELS,
                forall|k: int|
                    0 <= k < j ==> (#[trigger] self.destination_connection(
                        output_channel_index as int,
                        k,
                    )).is_some(),
            decreases CONNECTION_SIZE - j,
        {
            if self.destination_connections[output_channel_index][j].is_none() {
                return Some(j);
            }
            j += 1;
        }
        None
    }

    /// Appends an edge from an output stream of `source_index` to an input
    /// stream of `destination_index`, in the first free entry of the
    /// destination's connection list.
    pub fn connect_value_stream(
        &mut self,
        source_index: usize,
        source_stream_index: usize,
        destination_index: usize,
        destination_stream_index: usize,
    ) -> (entry: usize)
        requires
            source_index < SIZE,
            destination_index < SIZE,
            exists|k: int|
                0 <= k < CONNECTION_SIZE && (#[trigger] old(self).value_connection(
                    destination_index as int,
                    k,
                )).is_none(),
        ensures
            entry < CONNECTION_SIZE,
            old(self).value_connection(destination_index as int, entry as int).is_none(),
            forall|k: int|
                0 <= k < entry ==> (#[trigger] old(self).value_connection(
                    destination_index as int,
                    k,
                )).is_some(),
            forall|v: int, j: int|
                #[trigger] final(self).value_connection(v, j) == if v == destination_index && j
                    == entry {
                    Some(
                        ValueStreamConnection {
                            source_index,
                            source_stream_index,
                            destination_stream_index,
                        },
                    )
                } else {
                    old(self).value_connection(v, j)
                },
            final(self).keeps_instruments(old(self)),
            final(self).keeps_control_sources(old(self)),
            final(self).keeps_control_bindings(old(self)),
            final(self).keeps_destination_connections(old(self)),
    {
        let free = self.free_value_connection(destination_index);
        let entry = free.unwrap();
        self.value_stream_connections[destination_index][entry] = Some(
            ValueStreamConnection { source_index, source_stream_index, destination_stream_index },
        );
        entry
    }

    /// Appends an edge from an output stream of `source_index` to an output
    /// channel, in the first free entry of the channel's connection list.
    pub fn connect_destination(
        &mut self,
        output_channel_index: usize,
        source_index: usize,
        source_stream_index: usize,
    ) -> (entry: usize)
        requires
            output_channel_index < OUTPUT_CHANNELS,
            source_index < SIZE,
            exists|k: int|
                0 <= k < CONNECTION_SIZE && (#[trigger] old(self).destination_connection(
                    output_channel_index as int,
                    k,
                )).is_none(),
        ensures
            entry < CONNECTION_SIZE,
            old(self).destination_connection(output_channel_index as int, entry as int).is_none(),
            forall|k: int|
                0 <= k < entry ==> (#[trigger] old(self).destination_connection(
                    output_channel_index as int,
                    k,
                )).is_some(),
            forall|c: int, j: int|
                #[trigger] final(self).destination_connection(c, j) == if c
                    == output_channel_index && j == entry {
                    Some(DestinationConnection { source_index, source_stream_index })
                } else {
                    old(self).destination_connection(c, j)
                },
            final(self).keeps_instruments(old(self)),
            final(self).keeps_control_sources(old(self)),
            final(self).keeps_control_bindings(old(self)),
            final(self).keeps_value_connections(old(self)),
    {
        let free = self.free_destination_connection(output_channel_index);
        let entry = free.unwrap();
        self.destination_connections[output_channel_index][entry] = Some(
            DestinationConnection { source_index, source_stream_index },
        );
        entry
    }
}

} // verus!
