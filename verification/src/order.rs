//! Dependency resolution: the order in which the instruments of a graph run.
//!
//! An instrument waits for every instrument that feeds one of its input
//! streams. The order is found by scanning the slots again and again, each
//! time scheduling every instrument whose sources have all been scheduled,
//! until a scan schedules nothing more. On an acyclic wiring that leaves no
//! instrument out; on a cyclic one the instruments on a cycle are never
//! scheduled, which is how a cycle is detected.

use vstd::prelude::*;
use crate::graph::InstrumentGraph;

verus! {

impl<
    const SIZE: usize,
    const CONTROL_SIZE: usize,
    const CONNECTION_SIZE: usize,
    const OUTPUT_CHANNELS: usize,
> InstrumentGraph<SIZE, CONTROL_SIZE, CONNECTION_SIZE, OUTPUT_CHANNELS> {
    /// The instrument that entry `j` of the connection list of `v` makes `v`
    /// wait for. An entry whose source slot is empty makes it wait for nothing.
    pub open spec fn waits_for(&self, v: int, j: int) -> Option<int> {
        match self.value_connection(v, j) {
            Some(c) => if self.filled(c.source_index as int) {
                Some(c.source_index as int)
            } else {
                None
            },
            None => None,
        }
    }

    /// Every instrument that `v` waits for is in `done`.
    pub open spec fn ready(&self, done: Seq<int>, v: int) -> bool {
        forall|j: int|
            match #[trigger] self.waits_for(v, j) {
                Some(u) => done.contains(u),
                None => true,
            }
    }

    /// One scan over the slots from `i` on: every instrument that is not yet
    /// in `done` and is ready is appended, in slot order.
    pub open spec fn scan(&self, done: Seq<int>, i: int) -> Seq<int>
        decreases SIZE - i,
    {
        if i < 0 || i >= SIZE {
            done
        } else if self.filled(i) && !done.contains(i) && self.ready(done, i) {
            self.scan(done.push(i), i + 1)
        } else {
            self.scan(done, i + 1)
        }
    }

    /// Scans repeated until one schedules nothing.
    pub open spec fn settle(&self, done: Seq<int>) -> Seq<int>
        decreases SIZE - done.len(),
    {
        let next = self.scan(done, 0);
        if done.len() < next.len() <= SIZE {
            self.settle(next)
        } else {
            done
        }
    }

    /// The order in which the instruments run.
    pub open spec fn process_order(&self) -> Seq<int> {
        self.settle(Seq::empty())
    }

    /// `done` is a schedule: it names instruments only, none twice, and each
    /// one after all the instruments it waits for.
    pub open spec fn scheduled(&self, done: Seq<int>) -> bool {
        &&& done.no_duplicates()
        &&& forall|k: int|
            0 <= k < done.len() ==> self.filled(#[trigger] done[k]) && self.ready(
                done.take(k),
                done[k],
            )
    }

    /// No instrument outside `done` is ready.
    pub open spec fn stuck(&self, done: Seq<int>) -> bool {
        forall|s: int| self.filled(s) && !done.contains(s) ==> !#[trigger] self.ready(done, s)
    }

    /// `rank` gives every instrument a higher number than each instrument it waits for.
    pub open spec fn ranks(&self, rank: Seq<int>) -> bool {
        &&& rank.len() == SIZE
        &&& forall|v: int| 0 <= v < SIZE ==> #[trigger] rank[v] >= 0
        &&& forall|v: int, j: int|
            match #[trigger] self.waits_for(v, j) {
                Some(u) => self.filled(v) ==> rank[u] < rank[v],
                None => true,
            }
    }

    /// The value stream connections between instruments form no cycle.
    pub open spec fn is_acyclic(&self) -> bool {
        exists|rank: Seq<int>| self.ranks(rank)
    }

    /// `order` holds the process order in its first entries and `usize::MAX`
    /// in the rest.
    pub open spec fn lays_out(&self, order: [usize; SIZE]) -> bool {
        let o = self.process_order();
        &&& o.len() <= SIZE
        &&& forall|k: int| 0 <= k < o.len() ==> order[k] as int == o[k]
        &&& forall|k: int| o.len() <= k < SIZE ==> order[k] == usize::MAX
    }

    /// A schedule has at most as many entries as there are slots.
    pub proof fn lemma_scheduled_len(&self, done: Seq<int>)
        requires
            self.scheduled(done),
        ensures
            done.len() <= SIZE,
    {
        let slots = vstd::set_lib::set_int_range(0, SIZE as int);
        vstd::set_lib::lemma_int_range(0, SIZE as int);
        done.unique_seq_to_set();
        assert forall|x: int| done.to_set().contains(x) implies slots.contains(x) by {
            let k = choose|k: int| 0 <= k < done.len() && done[k] == x;
            assert(self.filled(done[k]));
        }
        vstd::set_lib::lemma_len_subset(done.to_set(), slots);
    }

    /// Appending a ready instrument that is not yet scheduled keeps a schedule.
    pub proof fn lemma_scheduled_push(&self, done: Seq<int>, i: int)
        requires
            self.scheduled(done),
            self.filled(i),
            !done.contains(i),
            self.ready(done, i),
        ensures
            self.scheduled(done.push(i)),
    {
        let next = done.push(i);
        assert forall|k: int| 0 <= k < next.len() implies self.filled(#[trigger] next[k])
            && self.ready(next.take(k), next[k]) by {
            if k < done.len() {
                assert(next[k] == done[k]);
                assert(next.take(k) =~= done.take(k));
            } else {
                assert(next.take(k) =~= done);
            }
        }
        assert forall|a: int, b: int| 0 <= a < next.len() && 0 <= b < next.len() && a != b implies next[a] != next[b] by {
            if a < done.len() {
                assert(done.contains(done[a]));
            }
            if b < done.len() {
                assert(done.contains(done[b]));
            }
        }
    }

    /// A scan keeps a schedule and extends it; if it adds nothing, none of the
    /// slots it went over was ready.
    pub proof fn lemma_scan(&self, done: Seq<int>, i: int)
        requires
            self.scheduled(done),
            0 <= i <= SIZE,
        ensures
            self.scheduled(self.scan(done, i)),
            done.len() <= self.scan(done, i).len(),
            self.scan(done, i).take(done.len() as int) == done,
            self.scan(done, i).len() == done.len() ==> forall|s: int|
                i <= s < SIZE && self.filled(s) && !done.contains(s) ==> !#[trigger] self.ready(
                    done,
                    s,
                ),
        decreases SIZE - i,
    {
        if i >= SIZE {
            assert(self.scan(done, i).take(done.len() as int) =~= done);
        } else if self.filled(i) && !done.contains(i) && self.ready(done, i) {
            let next = done.push(i);
            self.lemma_scheduled_push(done, i);
            self.lemma_scan(next, i + 1);
            let r = self.scan(next, i + 1);
            assert(r.take(done.len() as int) =~= r.take(next.len() as int).take(done.len() as int));
            assert(next.take(done.len() as int) =~= done);
        } else {
            self.lemma_scan(done, i + 1);
        }
    }

    /// Settling a schedule gives a schedule outside of which nothing is ready.
    pub proof fn lemma_settle(&self, done: Seq<int>)
        requires
            self.scheduled(done),
        ensures
            self.scheduled(self.settle(done)),
            self.stuck(self.settle(done)),
        decreases SIZE - done.len(),
    {
        let next = self.scan(done, 0);
        self.lemma_scan(done, 0);
        self.lemma_scheduled_len(next);
        if done.len() < next.len() {
            self.lemma_settle(next);
        } else {
            assert(self.settle(done) == done);
        }
    }

    /// Under a ranking, a stuck schedule holds every instrument of rank up to `n`.
    pub proof fn lemma_stuck_holds_ranked(&self, done: Seq<int>, rank: Seq<int>, n: nat)
        requires
            self.stuck(done),
            self.ranks(rank),
        ensures
            forall|s: int| self.filled(s) && rank[s] <= n ==> done.contains(s),
        decreases n,
    {
        if n > 0 {
            self.lemma_stuck_holds_ranked(done, rank, (n - 1) as nat);
        }
        assert forall|s: int| self.filled(s) && rank[s] <= n implies done.contains(s) by {
            if !done.contains(s) {
                assert(!self.ready(done, s));
                let j = choose|j: int|
                    !(match #[trigger] self.waits_for(s, j) {
                        Some(u) => done.contains(u),
                        None => true,
                    });
                let u = self.waits_for(s, j).unwrap();
                assert(self.filled(u));
                assert(rank[u] < rank[s]);
                assert(rank[u] >= 0);
            }
        }
    }

    /// A schedule that holds every instrument shows that the wiring is acyclic.
    pub proof fn lemma_complete_schedule_ranks(&self, done: Seq<int>)
        requires
            self.scheduled(done),
            forall|s: int| self.filled(s) ==> done.contains(s),
        ensures
            self.is_acyclic(),
    {
        let rank = Seq::new(
            SIZE as nat,
            |v: int|
                if done.contains(v) {
                    done.index_of(v)
                } else {
                    0
                },
        );
        assert forall|v: int, j: int|
            match #[trigger] self.waits_for(v, j) {
                Some(u) => self.filled(v) ==> rank[u] < rank[v],
                None => true,
            } by {
            if self.waits_for(v, j).is_some() && self.filled(v) {
                let u = self.waits_for(v, j).unwrap();
                assert(self.filled(u));
                assert(done.contains(v));
                assert(done.contains(u));
                let k = done.index_of(v);
                let m0 = done.index_of(u);
                assert(done[k] == v && 0 <= k < done.len());
                assert(done[m0] == u && 0 <= m0 < done.len());
                assert(self.ready(done.take(k), done[k]));
                assert(done.take(k).contains(u));
                let m = choose|m: int| 0 <= m < done.take(k).len() && done.take(k)[m] == u;
                assert(done[m] == u);
                assert(m == m0);
            }
        }
        assert forall|v: int| 0 <= v < SIZE implies #[trigger] rank[v] >= 0 by {
            if done.contains(v) {
                let k = done.index_of(v);
                assert(0 <= k < done.len());
            }
        }
        assert(self.ranks(rank));
    }

    /// The process order is a schedule, and it leaves an instrument out
    /// exactly if the wiring has a cycle.
    pub proof fn lemma_process_order(&self)
        ensures
            self.scheduled(self.process_order()),
            self.stuck(self.process_order()),
            self.process_order().len() <= SIZE,
            self.is_acyclic() <==> (forall|s: int|
                self.filled(s) ==> self.process_order().contains(s)),
    {
        let start = Seq::<int>::empty();
        assert(self.scheduled(start));
        self.lemma_settle(start);
        let order = self.process_order();
        self.lemma_scheduled_len(order);
        if self.is_acyclic() {
            let rank = choose|rank: Seq<int>| self.ranks(rank);
            assert forall|s: int| self.filled(s) implies order.contains(s) by {
                assert(rank[s] >= 0);
                self.lemma_stuck_holds_ranked(order, rank, rank[s] as nat);
            }
        }
        if forall|s: int| self.filled(s) ==> order.contains(s) {
            self.lemma_complete_schedule_ranks(order);
        }
    }

    /// On an acyclic wiring the process order names every instrument exactly
    /// once and no other slot, and whenever one instrument feeds another, the
    /// feeding one stands strictly earlier.
    pub proof fn lemma_process_order_is_topological(&self)
        requires
            self.is_acyclic(),
        ensures
            self.process_order().no_duplicates(),
            forall|s: int| self.filled(s) <==> self.process_order().contains(s),
            forall|a: int, b: int, j: int|
                0 <= a < self.process_order().len() && 0 <= b < self.process_order().len()
                    && #[trigger] self.waits_for(self.process_order()[b], j) == Some(
                    #[trigger] self.process_order()[a],
                ) ==> a < b,
    {
        let order = self.process_order();
        self.lemma_process_order();
        assert forall|s: int| order.contains(s) implies self.filled(s) by {
            let k = choose|k: int| 0 <= k < order.len() && order[k] == s;
            assert(self.filled(order[k]));
        }
        assert forall|a: int, b: int, j: int|
            0 <= a < order.len() && 0 <= b < order.len() && #[trigger] self.waits_for(
                order[b],
                j,
            ) == Some(#[trigger] order[a]) implies a < b by {
            assert(self.filled(order[b]) && self.ready(order.take(b), order[b]));
            assert(order.take(b).contains(order[a]));
            let m = choose|m: int| 0 <= m < order.take(b).len() && order.take(b)[m] == order[a];
            assert(order[m] == order[a]);
            assert(m == a);
        }
    }

    /// `order` names every instrument exactly once and no other slot, and
    /// whenever one instrument feeds another, the feeding one stands strictly
    /// earlier. Entries that name no slot hold `usize::MAX`.
    pub open spec fn is_topological(&self, order: [usize; SIZE]) -> bool {
        &&& forall|s: int| #[trigger]
            self.filled(s) ==> exists|k: int| 0 <= k < SIZE && #[trigger] order[k] == s
        &&& forall|k: int|
            0 <= k < SIZE ==> #[trigger] order[k] == usize::MAX || self.filled(order[k] as int)
        &&& forall|a: int, b: int|
            0 <= a < b < SIZE && #[trigger] order[a] != usize::MAX ==> order[a] != #[trigger] order[b]
        &&& forall|a: int, b: int, j: int|
            0 <= a < SIZE && 0 <= b < SIZE && self.filled(order[b] as int)
                && #[trigger] self.waits_for(order[b] as int, j) == Some(
                #[trigger] order[a] as int,
            ) ==> a < b
    }

    /// On an acyclic wiring, the array that holds the process order is topological.
    pub proof fn lemma_lays_out_is_topological(&self, order: [usize; SIZE])
        requires
            self.is_acyclic(),
            self.lays_out(order),
        ensures
            self.is_topological(order),
    {
        let o = self.process_order();
        self.lemma_process_order_is_topological();
        assert forall|s: int| #[trigger] self.filled(s) implies exists|k: int|
            0 <= k < SIZE && #[trigger] order[k] == s by {
            assert(o.contains(s));
            let k = choose|k: int| 0 <= k < o.len() && o[k] == s;
            assert(order[k] == s);
        }
        assert forall|k: int| 0 <= k < SIZE implies #[trigger] order[k] == usize::MAX
            || self.filled(order[k] as int) by {
            if k < o.len() {
                assert(o.contains(o[k]));
            }
        }
        assert forall|a: int, b: int|
            0 <= a < b < SIZE && #[trigger] order[a] != usize::MAX implies order[a]
            != #[trigger] order[b] by {
            if b < o.len() {
                assert(o[a] != o[b]);
            } else {
                assert(o.contains(o[a]));
            }
        }
        assert forall|a: int, b: int, j: int|
            0 <= a < SIZE && 0 <= b < SIZE && self.filled(order[b] as int)
                && #[trigger] self.waits_for(order[b] as int, j) == Some(
                #[trigger] order[a] as int,
            ) implies a < b by {
            assert(self.filled(order[a] as int));
            assert(a < o.len() && b < o.len());
            assert(self.waits_for(o[b], j) == Some(o[a]));
        }
    }

    /// Whether slot `index` holds an instrument.
    pub fn is_filled(&self, index: usize) -> (r: bool)
        ensures
            r == self.filled(index as int),
    {
        index < SIZE && self.instruments[index].is_some()
    }

    /// Resolves the dependencies between the instruments. Returns the order
    /// in which they run, as slot indices followed by `usize::MAX` in the
    /// unused entries, or `None` if the wiring has a cycle.
    pub fn find_instrument_process_order(&self) -> (r: Option<[usize; SIZE]>)
        ensures
            r.is_some() == self.is_acyclic(),
            match r {
                Some(order) => self.lays_out(order) && self.is_topological(order),
                None => true,
            },
    {
        let mut order: [usize; SIZE] = [usize::MAX; SIZE];
        let mut count: usize = 0;
        let mut processed: [bool; SIZE] = [false; SIZE];
        let ghost mut done: Seq<int> = Seq::empty();
        loop
            invariant_except_break
                self.settle(done) == self.process_order(),
            invariant
                self.scheduled(done),
                done.len() == count,
                count <= SIZE,
                forall|k: int| 0 <= k < count ==> order[k] as int == done[k],
                forall|k: int| count <= k < SIZE ==> order[k] == usize::MAX,
                forall|s: int| 0 <= s < SIZE ==> processed[s] == done.contains(s),
            ensures
                done == self.process_order(),
            decreases SIZE - count,
        {
            let before = count;
            let ghost start = done;
            let mut i: usize = 0;
            while i < SIZE
                invariant
                    i <= SIZE,
                    self.scheduled(done),
                    self.scan(done, i as int) == self.scan(start, 0),
                    before <= count,
                    start.len() == before,
                    done.len() == count,
                    count <= SIZE,
                    forall|k: int| 0 <= k < count ==> order[k] as int == done[k],
                    forall|k: int| count <= k < SIZE ==> order[k] == usize::MAX,
                    forall|s: int| 0 <= s < SIZE ==> processed[s] == done.contains(s),
                decreases SIZE - i,
            {
                if self.instruments[i].is_some() && !processed[i] {
                    let mut all_processed = true;
                    let mut j: usize = 0;
                    while j < CONNECTION_SIZE
                        invariant
                            j <= CONNECTION_SIZE,
                            i < SIZE,
                            forall|s: int| 0 <= s < SIZE ==> processed[s] == done.contains(s),
                            all_processed == (forall|e: int|
                                0 <= e < j ==> match #[trigger] self.waits_for(i as int, e) {
                                    Some(u) => done.contains(u),
                                    None => true,
                                }),
                        decreases CONNECTION_SIZE - j,
                    {
                        if let Some(connection) = self.value_stream_connections[i][j] {
                            if self.is_filled(connection.source_index)
                                && !processed[connection.source_index] {
                                all_processed = false;
                                assert(self.waits_for(i as int, j as int) == Some(
                                    connection.source_index as int,
                                ));
                            }
                        }
                        j += 1;
                    }
                    proof {
                        if all_processed {
                            assert forall|e: int|
                                match #[trigger] self.waits_for(i as int, e) {
                                    Some(u) => done.contains(u),
                                    None => true,
                                } by {
                                if !(0 <= e < CONNECTION_SIZE) {
                                    assert(self.value_connection(i as int, e).is_none());
                                }
                            }
                        }
                        assert(all_processed == self.ready(done, i as int));
                    }
                    if all_processed {
                        let ghost earlier = done;
                        proof {
                            self.lemma_scheduled_push(done, i as int);
                            self.lemma_scheduled_len(done.push(i as int));
                            done = done.push(i as int);
                        }
                        processed[i] = true;
                        order[count] = i;
                        count += 1;
                        proof {
                            assert forall|s: int| 0 <= s < SIZE implies processed[s]
                                == done.contains(s) by {
                                if s == i {
                                    assert(done[count - 1] == s);
                                } else if earlier.contains(s) {
                                    let k = choose|k: int| 0 <= k < earlier.len() && earlier[k] == s;
                                    assert(done[k] == s);
                                }
                            }
                        }
                    }
                }
                i += 1;
            }
            if count == before {
                proof {
                    self.lemma_scan(start, 0);
                    assert(done.take(start.len() as int) =~= done);
                }
                break;
            }
        }
        proof {
            self.lemma_process_order();
        }
        let mut i: usize = 0;
        while i < SIZE
            invariant
                i <= SIZE,
                done == self.process_order(),
                done.len() == count,
                count <= SIZE,
                forall|k: int| 0 <= k < count ==> order[k] as int == done[k],
                forall|k: int| count <= k < SIZE ==> order[k] == usize::MAX,
                self.is_acyclic() <==> (forall|s: int|
                    self.filled(s) ==> self.process_order().contains(s)),
                forall|s: int| 0 <= s < SIZE ==> processed[s] == done.contains(s),
                forall|s: int| 0 <= s < i && self.filled(s) ==> done.contains(s),
            decreases SIZE - i,
        {
            if self.instruments[i].is_some() && !processed[i] {
                assert(self.filled(i as int) && !done.contains(i as int));
                return None;
            }
            i += 1;
        }
        proof {
            self.lemma_lays_out_is_topological(order);
        }
        Some(order)
    }

    /// Resolves the dependencies between the instruments of an acyclic
    /// wiring. Returns the order in which they run, as slot indices followed
    /// by `usize::MAX` in the unused entries.
    pub fn get_instrument_process_order(&self) -> (order: [usize; SIZE])
        requires
            self.is_acyclic(),
        ensures
            self.lays_out(order),
            self.is_topological(order),
    {
        let found = self.find_instrument_process_order();
        found.unwrap()
    }
}

} // verus!
