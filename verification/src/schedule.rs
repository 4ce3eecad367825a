//! What the actions of a step guarantee: the instruments run in process
//! order, each exactly once, and every value stream is fed after its source
//! has run and before its destination runs.

use vstd::prelude::*;
use crate::graph::InstrumentGraph;
use crate::step::StepAction;

verus! {

/// The instruments that `actions` run, in the order in which they run.
pub open spec fn run_order(actions: Seq<StepAction>) -> Seq<int>
    decreases actions.len(),
{
    if actions.len() == 0 {
        Seq::empty()
    } else {
        match actions.last() {
            StepAction::Process { instrument } => run_order(actions.drop_last()).push(
                instrument as int,
            ),
            _ => run_order(actions.drop_last()),
        }
    }
}

/// Instrument `i` runs before action number `k`.
pub open spec fn runs_before(actions: Seq<StepAction>, k: int, i: usize) -> bool {
    exists|p: int| 0 <= p < k && p < actions.len() && #[trigger] actions[p] == (StepAction::Process {
        instrument: i,
    })
}

/// Instrument `i` runs after action number `k`.
pub open spec fn runs_after(actions: Seq<StepAction>, k: int, i: usize) -> bool {
    exists|q: int| k < q < actions.len() && #[trigger] actions[q] == (StepAction::Process {
        instrument: i,
    })
}

/// If action number `k` feeds a value stream, its source runs before it and
/// its destination after it.
pub open spec fn fed_in_turn_at(actions: Seq<StepAction>, k: int) -> bool {
    match actions[k] {
        StepAction::FeedValue { source, destination, .. } => runs_before(actions, k, source)
            && runs_after(actions, k, destination),
        _ => true,
    }
}

/// Every value stream is fed after its source has run and before its
/// destination runs.
pub open spec fn fed_in_turn(actions: Seq<StepAction>) -> bool {
    forall|k: int| 0 <= k < actions.len() ==> #[trigger] fed_in_turn_at(actions, k)
}

/// `actions` neither run an instrument nor feed a value stream.
pub open spec fn idle(actions: Seq<StepAction>) -> bool {
    forall|k: int|
        0 <= k < actions.len() ==> match #[trigger] actions[k] {
            StepAction::Process { .. } => false,
            StepAction::FeedValue { .. } => false,
            _ => true,
        }
}

/// The run order of two runs of actions, one after the other, is the run
/// order of the first followed by that of the second.
pub proof fn lemma_run_order_add(a: Seq<StepAction>, b: Seq<StepAction>)
    ensures
        run_order(a + b) == run_order(a) + run_order(b),
    decreases b.len(),
{
    if b.len() == 0 {
        assert(a + b =~= a);
        assert(run_order(a) + run_order(b) =~= run_order(a));
    } else {
        lemma_run_order_add(a, b.drop_last());
        assert((a + b).drop_last() =~= a + b.drop_last());
        assert((a + b).last() == b.last());
        match b.last() {
            StepAction::Process { instrument } => {
                assert(run_order(a) + run_order(b.drop_last()).push(instrument as int) =~= (
                run_order(a) + run_order(b.drop_last())).push(instrument as int));
            },
            _ => {},
        }
    }
}

/// Actions without a run have an empty run order.
pub proof fn lemma_run_order_without_runs(a: Seq<StepAction>)
    requires
        forall|k: int|
            0 <= k < a.len() ==> match #[trigger] a[k] {
                StepAction::Process { .. } => false,
                _ => true,
            },
    ensures
        run_order(a) == Seq::<int>::empty(),
    decreases a.len(),
{
    if a.len() > 0 {
        assert forall|k: int| 0 <= k < a.drop_last().len() implies match #[trigger] a.drop_last()[k] {
            StepAction::Process { .. } => false,
            _ => true,
        } by {
            assert(a.drop_last()[k] == a[k]);
        }
        lemma_run_order_without_runs(a.drop_last());
    }
}

/// Idle actions in front change nothing about the turns of the feeds.
pub proof fn lemma_fed_in_turn_after_idle(a: Seq<StepAction>, b: Seq<StepAction>)
    requires
        idle(a),
        fed_in_turn(b),
    ensures
        fed_in_turn(a + b),
{
    let all = a + b;
    assert forall|k: int| 0 <= k < all.len() implies #[trigger] fed_in_turn_at(all, k) by {
        if k < a.len() {
            assert(all[k] == a[k]);
        } else {
            let kb = k - a.len();
            assert(all[k] == b[kb]);
            assert(fed_in_turn_at(b, kb));
            match b[kb] {
                StepAction::FeedValue { source, destination, .. } => {
                    let p = choose|p: int|
                        0 <= p < kb && p < b.len() && #[trigger] b[p] == (StepAction::Process {
                            instrument: source,
                        });
                    assert(all[a.len() + p] == b[p]);
                    let q = choose|q: int|
                        kb < q < b.len() && #[trigger] b[q] == (StepAction::Process {
                            instrument: destination,
                        });
                    assert(all[a.len() + q] == b[q]);
                },
                _ => {},
            }
        }
    }
}

/// Idle actions behind change nothing about the turns of the feeds.
pub proof fn lemma_fed_in_turn_before_idle(a: Seq<StepAction>, b: Seq<StepAction>)
    requires
        fed_in_turn(a),
        idle(b),
    ensures
        fed_in_turn(a + b),
{
    let all = a + b;
    assert forall|k: int| 0 <= k < all.len() implies #[trigger] fed_in_turn_at(all, k) by {
        if k < a.len() {
            assert(all[k] == a[k]);
            assert(fed_in_turn_at(a, k));
            match a[k] {
                StepAction::FeedValue { source, destination, .. } => {
                    let p = choose|p: int|
                        0 <= p < k && p < a.len() && #[trigger] a[p] == (StepAction::Process {
                            instrument: source,
                        });
                    assert(all[p] == a[p]);
                    let q = choose|q: int|
                        k < q < a.len() && #[trigger] a[q] == (StepAction::Process {
                            instrument: destination,
                        });
                    assert(all[q] == a[q]);
                },
                _ => {},
            }
        } else {
            assert(all[k] == b[k - a.len()]);
        }
    }
}

/// Appending the actions of one instrument keeps the feeds in turn, if the
/// instrument's feeds come first, all from instruments that have run, and
/// its run comes last.
pub proof fn lemma_fed_in_turn_next(a: Seq<StepAction>, b: Seq<StepAction>, v: usize)
    requires
        fed_in_turn(a),
        b.len() > 0,
        b.last() == (StepAction::Process { instrument: v }),
        forall|k: int|
            0 <= k < b.len() - 1 ==> match #[trigger] b[k] {
                StepAction::FeedValue { source, destination, .. } => destination == v
                    && runs_before(a, a.len() as int, source),
                StepAction::Process { .. } => false,
                _ => true,
            },
    ensures
        fed_in_turn(a + b),
{
    let all = a + b;
    assert forall|k: int| 0 <= k < all.len() implies #[trigger] fed_in_turn_at(all, k) by {
        if k < a.len() {
            assert(all[k] == a[k]);
            assert(fed_in_turn_at(a, k));
            match a[k] {
                StepAction::FeedValue { source, destination, .. } => {
                    let p = choose|p: int|
                        0 <= p < k && p < a.len() && #[trigger] a[p] == (StepAction::Process {
                            instrument: source,
                        });
                    assert(all[p] == a[p]);
                    let q = choose|q: int|
                        k < q < a.len() && #[trigger] a[q] == (StepAction::Process {
                            instrument: destination,
                        });
                    assert(all[q] == a[q]);
                },
                _ => {},
            }
        } else {
            let kb = k - a.len();
            assert(all[k] == b[kb]);
            if kb < b.len() - 1 {
                match b[kb] {
                    StepAction::FeedValue { source, destination, .. } => {
                        let p = choose|p: int|
                            0 <= p < a.len() && p < a.len() && #[trigger] a[p] == (
                            StepAction::Process { instrument: source });
                        assert(all[p] == a[p]);
                        assert(all[all.len() - 1] == b[b.len() - 1]);
                    },
                    _ => {},
                }
            }
        }
    }
}

impl<
    const SIZE: usize,
    const CONTROL_SIZE: usize,
    const CONNECTION_SIZE: usize,
    const OUTPUT_CHANNELS: usize,
> InstrumentGraph<SIZE, CONTROL_SIZE, CONNECTION_SIZE, OUTPUT_CHANNELS> {
    proof fn lemma_fetch_actions_idle(&self, n: int)
        ensures
            idle(self.fetch_actions(n)),
        decreases n,
    {
        if n > 0 {
            self.lemma_fetch_actions_idle(n - 1);
        }
    }

    proof fn lemma_channel_actions_idle(&self, c: int, n: int)
        ensures
            idle(self.channel_actions(c, n)),
        decreases n,
    {
        if n > 0 {
            self.lemma_channel_actions_idle(c, n - 1);
        }
    }

    proof fn lemma_output_actions_idle(&self, n: int)
        ensures
            idle(self.output_actions(n)),
        decreases n,
    {
        if n > 0 {
            self.lemma_output_actions_idle(n - 1);
            self.lemma_channel_actions_idle(n - 1, CONNECTION_SIZE as int);
        }
    }

    /// The feeds of `v` all go to `v`, from the sources of its connections.
    proof fn lemma_feed_value_actions(&self, v: int, n: int)
        requires
            self.filled(v),
        ensures
            forall|k: int|
                0 <= k < self.feed_value_actions(v, n).len() ==> match #[trigger] self.feed_value_actions(
                    v,
                    n,
                )[k] {
                    StepAction::FeedValue { source, destination, .. } => destination == v
                        && exists|j: int|
                        (#[trigger] self.value_connection(v, j)).is_some()
                            && self.value_connection(v, j).unwrap().source_index == source,
                    _ => false,
                },
        decreases n,
    {
        if n > 0 {
            self.lemma_feed_value_actions(v, n - 1);
            let prev = self.feed_value_actions(v, n - 1);
            let all = self.feed_value_actions(v, n);
            assert forall|k: int| 0 <= k < all.len() implies match #[trigger] all[k] {
                StepAction::FeedValue { source, destination, .. } => destination == v && exists|
                    j: int,
                |
                    (#[trigger] self.value_connection(v, j)).is_some() && self.value_connection(
                        v,
                        j,
                    ).unwrap().source_index == source,
                _ => false,
            } by {
                if k < prev.len() {
                    assert(all[k] == prev[k]);
                } else {
                    assert(self.value_connection(v, n - 1).is_some());
                }
            }
        }
    }

    /// The actions of one instrument: feeds first, its run last, and nothing
    /// else that runs or feeds values.
    proof fn lemma_instrument_actions(&self, v: int)
        requires
            self.filled(v),
        ensures
            self.instrument_actions(v).len() > 0,
            self.instrument_actions(v).last() == (StepAction::Process { instrument: v as usize }),
            run_order(self.instrument_actions(v)) == seq![v],
            forall|k: int|
                0 <= k < self.instrument_actions(v).len() - 1 ==> match #[trigger] self.instrument_actions(
                    v,
                )[k] {
                    StepAction::FeedValue { source, destination, .. } => destination == v
                        && exists|j: int|
                        (#[trigger] self.value_connection(v, j)).is_some()
                            && self.value_connection(v, j).unwrap().source_index == source,
                    StepAction::Process { .. } => false,
                    _ => true,
                },
    {
        let feeds = self.feed_value_actions(v, CONNECTION_SIZE as int);
        let controls = self.feed_control_actions(v, self.shape(v).in_control_streams as int);
        let run = seq![StepAction::Process { instrument: v as usize }];
        let all = self.instrument_actions(v);
        self.lemma_feed_value_actions(v, CONNECTION_SIZE as int);
        assert(all == feeds + controls + run);
        assert(all.last() == run[0]);
        assert forall|k: int| 0 <= k < all.len() - 1 implies match #[trigger] all[k] {
            StepAction::FeedValue { source, destination, .. } => destination == v && exists|j: int|
                (#[trigger] self.value_connection(v, j)).is_some() && self.value_connection(
                    v,
                    j,
                ).unwrap().source_index == source,
            StepAction::Process { .. } => false,
            _ => true,
        } by {
            if k < feeds.len() {
                assert(all[k] == feeds[k]);
            } else {
                assert(all[k] == controls[k - feeds.len()]);
            }
        }
        let front = all.drop_last();
        assert(front =~= feeds + controls);
        assert(run_order(front) == Seq::<int>::empty()) by {
            lemma_run_order_without_runs(front);
        }
        assert(run_order(all) =~= seq![v]);
    }

    /// The actions of the first `n` instruments of a schedule run exactly
    /// these instruments, in order, and feed every value stream in turn.
    proof fn lemma_order_actions(&self, order: Seq<int>, n: int)
        requires
            0 <= n <= order.len(),
            self.scheduled(order),
            forall|v: int, j: int| #[trigger] self.value_entry_wired(v, j),
        ensures
            run_order(self.order_actions(order, n)) == order.take(n),
            fed_in_turn(self.order_actions(order, n)),
            forall|m: int|
                0 <= m < n ==> runs_before(
                    self.order_actions(order, n),
                    self.order_actions(order, n).len() as int,
                    #[trigger] order[m] as usize,
                ),
        decreases n,
    {
        if n == 0 {
            assert(order.take(0) =~= Seq::<int>::empty());
        } else {
            self.lemma_order_actions(order, n - 1);
            let a = self.order_actions(order, n - 1);
            let v = order[n - 1];
            let b = self.instrument_actions(v);
            let all = self.order_actions(order, n);
            assert(all == a + b);
            assert(self.filled(v) && self.ready(order.take(n - 1), v));
            self.lemma_instrument_actions(v);
            lemma_run_order_add(a, b);
            assert(order.take(n) =~= order.take(n - 1) + seq![v]);
            assert forall|k: int| 0 <= k < b.len() - 1 implies match #[trigger] b[k] {
                StepAction::FeedValue { source, destination, .. } => destination == v as usize
                    && runs_before(a, a.len() as int, source),
                StepAction::Process { .. } => false,
                _ => true,
            } by {
                match b[k] {
                    StepAction::FeedValue { source, destination, .. } => {
                        let j = choose|j: int|
                            (#[trigger] self.value_connection(v, j)).is_some()
                                && self.value_connection(v, j).unwrap().source_index == source;
                        assert(self.value_entry_wired(v, j));
                        assert(self.waits_for(v, j) == Some(source as int));
                        let earlier = order.take(n - 1);
                        assert(earlier.contains(source as int));
                        let m = choose|m: int| 0 <= m < earlier.len() && earlier[m] == source as int;
                        assert(order[m] == source as int);
                        assert(runs_before(a, a.len() as int, order[m] as usize));
                    },
                    _ => {},
                }
            }
            lemma_fed_in_turn_next(a, b, v as usize);
            assert forall|m: int| 0 <= m < n implies runs_before(
                all,
                all.len() as int,
                #[trigger] order[m] as usize,
            ) by {
                if m < n - 1 {
                    assert(runs_before(a, a.len() as int, order[m] as usize));
                    let p = choose|p: int|
                        0 <= p < a.len() && p < a.len() && #[trigger] a[p] == (StepAction::Process {
                            instrument: order[m] as usize,
                        });
                    assert(all[p] == a[p]);
                } else {
                    assert(all[all.len() - 1] == b[b.len() - 1]);
                }
            }
        }
    }

    /// A step runs the instruments in process order, each exactly once.
    pub proof fn lemma_step_runs_in_process_order(&self)
        requires
            self.well_wired(),
        ensures
            run_order(self.step_actions()) == self.process_order(),
            self.process_order().no_duplicates(),
            forall|s: int| self.filled(s) <==> self.process_order().contains(s),
    {
        let order = self.process_order();
        self.lemma_process_order_is_topological();
        self.lemma_process_order();
        self.lemma_order_actions(order, order.len() as int);
        self.lemma_fetch_actions_idle(CONTROL_SIZE as int);
        self.lemma_output_actions_idle(OUTPUT_CHANNELS as int);
        let head = seq![StepAction::ClearOutput] + self.fetch_actions(CONTROL_SIZE as int);
        let body = self.order_actions(order, order.len() as int);
        let tail = self.output_actions(OUTPUT_CHANNELS as int);
        assert(idle(head));
        lemma_run_order_without_runs(head);
        lemma_run_order_without_runs(tail);
        lemma_run_order_add(head, body);
        lemma_run_order_add(head + body, tail);
        assert(order.take(order.len() as int) =~= order);
        assert(Seq::<int>::empty() + order + Seq::<int>::empty() =~= order);
    }

    /// In a step, every value stream is fed after its source has run in
    /// that step and before its destination runs: an instrument reads what
    /// its sources have just put out.
    pub proof fn lemma_step_feeds_in_turn(&self)
        requires
            self.well_wired(),
        ensures
            fed_in_turn(self.step_actions()),
    {
        let order = self.process_order();
        self.lemma_process_order();
        self.lemma_order_actions(order, order.len() as int);
        self.lemma_fetch_actions_idle(CONTROL_SIZE as int);
        self.lemma_output_actions_idle(OUTPUT_CHANNELS as int);
        let head = seq![StepAction::ClearOutput] + self.fetch_actions(CONTROL_SIZE as int);
        let body = self.order_actions(order, order.len() as int);
        let tail = self.output_actions(OUTPUT_CHANNELS as int);
        assert(idle(head));
        lemma_fed_in_turn_after_idle(head, body);
        lemma_fed_in_turn_before_idle(head + body, tail);
    }
}

} // verus!
