//! The scheduler: a time-ordered queue of pending events and the set of
//! registered stations.
//!
//! The pending queue is kept sorted by occurrence time, ascending, and
//! insertion is stable: an enqueued event goes after every pending event with
//! the same occurrence time, so ties fire in insertion order and runs are
//! reproducible. Each `tick` removes the earliest pending event, routes it to
//! the first registered station whose name equals the event's destination,
//! and enqueues the station's follow-up event, if any. A station fault or an
//! event whose destination matches no station is fatal: `tick` surfaces it as
//! an error and the caller must not keep stepping the simulation.

use vstd::prelude::*;

use crate::events::Event;
use crate::station::ComputeResult;
use crate::station::IStation;

verus! {

/// Why a `tick` failed. Every failure reflects a configuration or scheduling
/// defect, never a transient condition: there is nothing to retry.
#[derive(Debug)]
pub enum EngineError {
    /// The event's destination matches no registered station.
    UnknownDestination(String),
    /// The station's policy reported an unrecoverable fault.
    StationError(String),
}

/// Ascending occurrence times.
pub open spec fn sorted_by_occur(q: Seq<Event>) -> bool {
    forall|i: int, j: int|
        0 <= i <= j < q.len() ==> #[trigger] q[i].occur_time <= #[trigger] q[j].occur_time
}

/// Where an event with occurrence time `t` is inserted into the pending
/// sequence `q`: directly before the first event with a strictly later
/// occurrence time, hence after every event no later than `t`.
pub open spec fn insert_pos(q: Seq<Event>, t: u64) -> int
    decreases q.len(),
{
    if q.len() == 0 {
        0
    } else if q[0].occur_time > t {
        0
    } else {
        1 + insert_pos(q.drop_first(), t)
    }
}

/// Stability of enqueueing: the insertion position lies after every pending
/// event whose occurrence time is no later than `t` and before the first
/// strictly later one, so events with equal occurrence times keep their
/// insertion order.
pub proof fn lemma_enqueue_position(q: Seq<Event>, t: u64)
    ensures
        0 <= insert_pos(q, t) <= q.len(),
        forall|j: int| 0 <= j < insert_pos(q, t) ==> #[trigger] q[j].occur_time <= t,
        insert_pos(q, t) < q.len() ==> q[insert_pos(q, t)].occur_time > t,
    decreases q.len(),
{
    if q.len() == 0 {
    } else if q[0].occur_time > t {
    } else {
        lemma_enqueue_position(q.drop_first(), t);
        assert forall|j: int| 0 <= j < insert_pos(q, t) implies #[trigger] q[j].occur_time
            <= t by {
            if j > 0 {
                assert(q.drop_first()[j - 1] == q[j]);
            }
        }
    }
}

/// The insertion position is the unique index bounded below by events no
/// later than `t` and bounded above by a strictly later event (or the end).
proof fn lemma_insert_pos_unique(q: Seq<Event>, t: u64, i: int)
    requires
        0 <= i <= q.len(),
        forall|j: int| 0 <= j < i ==> #[trigger] q[j].occur_time <= t,
        i < q.len() ==> q[i].occur_time > t,
    ensures
        insert_pos(q, t) == i,
    decreases q.len(),
{
    if q.len() == 0 {
    } else if i == 0 {
    } else {
        assert(q[0].occur_time <= t);
        lemma_insert_pos_unique(q.drop_first(), t, i - 1);
    }
}

/// Inserting at the computed position keeps the pending sequence sorted.
proof fn lemma_sorted_insert(q: Seq<Event>, e: Event)
    requires
        sorted_by_occur(q),
    ensures
        sorted_by_occur(q.insert(insert_pos(q, e.occur_time), e)),
{
    lemma_enqueue_position(q, e.occur_time);
    let p = insert_pos(q, e.occur_time);
    let q2 = q.insert(p, e);
    assert forall|i: int, j: int| 0 <= i <= j < q2.len() implies #[trigger] q2[i].occur_time
        <= #[trigger] q2[j].occur_time by {
        if i < p {
            assert(q2[i] == q[i]);
        } else if i > p {
            assert(q2[i] == q[i - 1]);
        }
        if j < p {
            assert(q2[j] == q[j]);
        } else if j > p {
            assert(q2[j] == q[j - 1]);
        }
    }
}

/// The first index whose station is named `dest`, or the sequence's length
/// when none is (duplicate names resolve to the first match, for
/// determinism).
pub open spec fn find_pos<S: IStation>(stations: Seq<S>, dest: Seq<char>) -> int
    decreases stations.len(),
{
    if stations.len() == 0 {
        0
    } else if stations[0].name_spec() == dest {
        0
    } else {
        1 + find_pos(stations.drop_first(), dest)
    }
}

/// Routing properties of `find_pos`: it stays within bounds, a found index
/// names the destination, and no earlier station does.
pub proof fn lemma_find_pos_properties<S: IStation>(stations: Seq<S>, dest: Seq<char>)
    ensures
        0 <= find_pos(stations, dest) <= stations.len(),
        find_pos(stations, dest) < stations.len() ==> stations[find_pos(stations, dest)].name_spec()
            == dest,
        forall|j: int|
            0 <= j < find_pos(stations, dest) ==> (#[trigger] stations[j]).name_spec() != dest,
    decreases stations.len(),
{
    if stations.len() == 0 {
    } else if stations[0].name_spec() == dest {
    } else {
        lemma_find_pos_properties(stations.drop_first(), dest);
        let p = find_pos(stations, dest);
        if p < stations.len() {
            assert(stations.drop_first()[p - 1] == stations[p]);
        }
        assert forall|j: int| 0 <= j < p implies (#[trigger] stations[j]).name_spec() != dest by {
            if j > 0 {
                assert(stations.drop_first()[j - 1] == stations[j]);
            }
        }
    }
}

/// The first matching index is the unique index with no match before it.
proof fn lemma_find_pos_unique<S: IStation>(stations: Seq<S>, dest: Seq<char>, i: int)
    requires
        0 <= i <= stations.len(),
        forall|j: int| 0 <= j < i ==> (#[trigger] stations[j]).name_spec() != dest,
        i < stations.len() ==> stations[i].name_spec() == dest,
    ensures
        find_pos(stations, dest) == i,
    decreases stations.len(),
{
    if stations.len() == 0 {
    } else if i == 0 {
    } else {
        assert(stations[0].name_spec() != dest);
        lemma_find_pos_unique(stations.drop_first(), dest, i - 1);
    }
}

/// How one dispatch changes the pending queue and `tick`'s result, given the
/// station's report `cr`: an absorbed event leaves the remainder as is, a
/// follow-up event is enqueued into it at its sorted position, and a fault is
/// surfaced with the station's message.
pub open spec fn tick_outcome(
    rest: Seq<Event>,
    cr: ComputeResult,
    new_queue: Seq<Event>,
    r: Result<(), EngineError>,
) -> bool {
    match cr {
        ComputeResult::Done => r is Ok && new_queue == rest,
        ComputeResult::Event(e2) => r is Ok && new_queue == rest.insert(
            insert_pos(rest, e2.occur_time),
            e2,
        ),
        ComputeResult::Error(m) => new_queue == rest && (r matches Err(
            EngineError::StationError(m2),
        ) && m2@ == m@),
    }
}

/// Everything one `tick` does, as a relation between the scheduler before
/// (`pre`) and after (`post`) and the result. An empty queue is a no-op.
/// Otherwise the head event — the earliest pending — is removed and routed to
/// the first station whose name is its destination: if none exists the tick
/// fails with the destination, and otherwise exactly that station handled the
/// event and the queue and result follow `tick_outcome` from the station's
/// report.
pub open spec fn tick_post<S: IStation>(
    pre: Engine<S>,
    post: Engine<S>,
    r: Result<(), EngineError>,
) -> bool {
    &&& post.stations@.len() == pre.stations@.len()
    &&& pre.queue@.len() == 0 ==> r is Ok && post.queue@ == pre.queue@ && post.stations@
        == pre.stations@
    &&& pre.queue@.len() > 0 ==> ({
        let e = pre.queue@[0];
        let rest = pre.queue@.drop_first();
        let i = find_pos(pre.stations@, e.destination@);
        if i == pre.stations@.len() {
            &&& (r matches Err(EngineError::UnknownDestination(d)) && d@ == e.destination@)
            &&& post.queue@ == rest
            &&& post.stations@ == pre.stations@
        } else {
            &&& (forall|j: int|
                0 <= j < pre.stations@.len() && j != i ==> post.stations@[j] == pre.stations@[j])
            &&& exists|cr: ComputeResult|
                #[trigger] S::handle_post(pre.stations@[i], e, post.stations@[i], cr)
                    && tick_outcome(rest, cr, post.queue@, r)
        }
    })
}

/// The scheduler. It owns the pending events and the registered stations and
/// is strictly sequential: one `tick` runs to completion before anything else
/// is observed.
pub struct Engine<S: IStation> {
    /// Pending events, sorted ascending by occurrence time.
    pub queue: Vec<Event>,
    /// Registered stations, in registration order.
    pub stations: Vec<S>,
}

impl<S: IStation> Engine<S> {
    /// Well-formedness: the pending queue is sorted by occurrence time.
    pub open spec fn wf(&self) -> bool {
        sorted_by_occur(self.queue@)
    }

    /// An empty scheduler: no pending events, no stations.
    pub fn new() -> (engine: Engine<S>)
        ensures
            engine.wf(),
            engine.queue@.len() == 0,
            engine.stations@.len() == 0,
    {
        Engine { queue: Vec::new(), stations: Vec::new() }
    }

    /// Inserts `event` into the pending sequence at the position that keeps
    /// it sorted by occurrence time, after every pending event that fires no
    /// later — exactly one insertion.
    pub fn enqueue(&mut self, event: Event)
        requires
            old(self).wf(),
        ensures
            final(self).wf(),
            final(self).stations@ == old(self).stations@,
            final(self).queue@ == old(self).queue@.insert(
                insert_pos(old(self).queue@, event.occur_time),
                event,
            ),
    {
        proof {
            lemma_enqueue_position(self.queue@, event.occur_time);
            lemma_sorted_insert(self.queue@, event);
        }
        let mut i: usize = 0;
        while i < self.queue.len() && self.queue[i].occur_time <= event.occur_time
            invariant
                i <= self.queue@.len(),
                forall|j: int| 0 <= j < i ==> #[trigger] self.queue@[j].occur_time
                    <= event.occur_time,
                self.queue@ == old(self).queue@,
                self.stations@ == old(self).stations@,
            decreases self.queue@.len() - i,
        {
            i += 1;
        }
        proof {
            lemma_insert_pos_unique(self.queue@, event.occur_time, i as int);
        }
        self.queue.insert(i, event);
    }

    /// Removes the earliest pending event, if any, and routes it to the first
    /// station whose name equals the event's destination. The station's
    /// follow-up event, if it reports one, is enqueued; a station fault or an
    /// unroutable destination is fatal and surfaced as an error.
    pub fn tick(&mut self) -> (r: Result<(), EngineError>)
        requires
            old(self).wf(),
        ensures
            final(self).wf(),
            tick_post(*old(self), *final(self), r),
    {
        if self.queue.len() == 0 {
            return Ok(());
        }
        let evt = self.queue.remove(0);
        proof {
            assert(self.queue@ =~= old(self).queue@.drop_first());
        }
        let n = self.stations.len();
        let mut i: usize = 0;
        while i < n
            invariant
                n == self.stations@.len(),
                i <= n,
                forall|j: int|
                    0 <= j < i ==> (#[trigger] self.stations@[j]).name_spec()
                        != evt.destination@,
                self.stations@ == old(self).stations@,
                old(self).queue@.len() > 0,
                evt == old(self).queue@[0],
                self.queue@ == old(self).queue@.drop_first(),
                sorted_by_occur(self.queue@),
            decreases n - i,
        {
            let matched = *self.stations[i].name() == evt.destination;
            if matched {
                proof {
                    lemma_find_pos_unique(self.stations@, evt.destination@, i as int);
                }
                let res = self.stations[i].handle(&evt);
                let ghost cr = res;
                proof {
                    assert(S::handle_post(
                        old(self).stations@[i as int],
                        old(self).queue@[0],
                        self.stations@[i as int],
                        cr,
                    ));
                }
                match res {
                    ComputeResult::Done => {
                        proof {
                            assert(tick_outcome(
                                old(self).queue@.drop_first(),
                                cr,
                                self.queue@,
                                Ok::<(), EngineError>(()),
                            ));
                        }
                        return Ok(());
                    },
                    ComputeResult::Event(e2) => {
                        self.enqueue(e2);
                        proof {
                            assert(tick_outcome(
                                old(self).queue@.drop_first(),
                                cr,
                                self.queue@,
                                Ok::<(), EngineError>(()),
                            ));
                            assert(S::handle_post(
                                old(self).stations@[i as int],
                                old(self).queue@[0],
                                self.stations@[i as int],
                                cr,
                            ));
                        }
                        return Ok(());
                    },
                    ComputeResult::Error(m) => {
                        return Err(EngineError::StationError(m));
                    },
                }
            }
            i += 1;
        }
        proof {
            lemma_find_pos_unique(self.stations@, evt.destination@, n as int);
        }
        Err(EngineError::UnknownDestination(evt.destination))
    }

    /// The pending events, earliest first; read-only.
    pub fn events(&self) -> (q: &Vec<Event>)
        ensures
            q@ == self.queue@,
    {
        &self.queue
    }

    /// The registered stations, in registration order; read-only.
    pub fn stations(&self) -> (s: &Vec<S>)
        ensures
            s@ == self.stations@,
    {
        &self.stations
    }

    /// Registers a station. Names are not checked for uniqueness; at dispatch
    /// time the first registered match wins.
    pub fn register_station(&mut self, station: S)
        requires
            old(self).wf(),
        ensures
            final(self).wf(),
            final(self).queue@ == old(self).queue@,
            final(self).stations@ == old(self).stations@.push(station),
    {
        self.stations.push(station);
    }

    /// Whether any event is still pending; non-destructive.
    pub fn has_events(&self) -> (b: bool)
        ensures
            b == (self.queue@.len() > 0),
    {
        self.queue.len() > 0
    }
}

/// Ordering invariant: in a well-formed scheduler the event `tick` removes —
/// the head of the pending sequence — fires no later than any pending event;
/// together with `lemma_enqueue_position` (ties are inserted after their
/// equals), events fire in occurrence-time order with ties in insertion
/// order.
pub proof fn lemma_first_event_is_earliest<S: IStation>(engine: &Engine<S>)
    requires
        engine.wf(),
        engine.queue@.len() > 0,
    ensures
        forall|j: int|
            0 <= j < engine.queue@.len() ==> engine.queue@[0].occur_time <= #[trigger] engine.queue@[j].occur_time,
{
}

} // verus!
