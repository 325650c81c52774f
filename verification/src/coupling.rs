//! Laws tying the scheduler to first-come-first-served stations.
//!
//! A running simulation of FCFS stations keeps a coupling between the
//! scheduler's pending queue and each station's state: the departures pending
//! for a station are exactly its in-service count — so at most one, the
//! single-server exclusivity law — and the one pending departure, when the
//! station is busy, is the very event under service. The lemmas here show the
//! coupling holds of a freshly built simulation and is preserved by
//! registering stations, by seeding fresh arrivals, and by every successful
//! `tick`.

use vstd::prelude::*;

use crate::engines::Engine;
use crate::engines::EngineError;
use crate::engines::find_pos;
use crate::engines::insert_pos;
use crate::engines::lemma_find_pos_properties;
use crate::engines::tick_outcome;
use crate::engines::tick_post;
use crate::events::DefaultType;
use crate::events::Event;
use crate::fcfs_ruler::FCFSPolicyManager;
use crate::fcfs_ruler::fresh_arrival;
use crate::fcfs_ruler::lemma_fcfs_invariant_preserved;
use crate::station::ComputeResult;
use crate::station::IStation;
use crate::station::Station;

verus! {

/// Whether an event is a departure destined for the station named `name`.
pub open spec fn is_departure_for(e: Event, name: Seq<char>) -> bool {
    e.kind == DefaultType::Departure.to_char() && e.destination@ == name
}

/// How many pending events are departures destined for `name`.
pub open spec fn pending_departures(q: Seq<Event>, name: Seq<char>) -> int
    decreases q.len(),
{
    if q.len() == 0 {
        0
    } else {
        (if is_departure_for(q[0], name) {
            1int
        } else {
            0
        }) + pending_departures(q.drop_first(), name)
    }
}

proof fn lemma_pending_nonneg(q: Seq<Event>, name: Seq<char>)
    ensures
        pending_departures(q, name) >= 0,
    decreases q.len(),
{
    if q.len() > 0 {
        lemma_pending_nonneg(q.drop_first(), name);
    }
}

/// A queue with no pending departure for `name` holds none at any index.
proof fn lemma_pending_none(q: Seq<Event>, name: Seq<char>)
    requires
        pending_departures(q, name) == 0,
    ensures
        forall|k: int| 0 <= k < q.len() ==> !is_departure_for(#[trigger] q[k], name),
    decreases q.len(),
{
    if q.len() > 0 {
        lemma_pending_nonneg(q.drop_first(), name);
        lemma_pending_none(q.drop_first(), name);
        assert forall|k: int| 0 <= k < q.len() implies !is_departure_for(
            #[trigger] q[k],
            name,
        ) by {
            if k > 0 {
                assert(q.drop_first()[k - 1] == q[k]);
            }
        }
    }
}

/// Inserting one event moves the count by that event's own contribution.
proof fn lemma_pending_insert(q: Seq<Event>, p: int, e: Event, name: Seq<char>)
    requires
        0 <= p <= q.len(),
    ensures
        pending_departures(q.insert(p, e), name) == pending_departures(q, name) + (
        if is_departure_for(e, name) {
            1int
        } else {
            0
        }),
    decreases q.len(),
{
    q.insert_ensures(p, e);
    if p == 0 {
        assert(q.insert(0, e)[0] == e);
        assert(q.insert(0, e).drop_first() =~= q);
    } else {
        assert(q.insert(p, e)[0] == q[0]);
        assert(q.insert(p, e).drop_first() =~= q.drop_first().insert(p - 1, e)) by {
            q.drop_first().insert_ensures(p - 1, e);
        }
        lemma_pending_insert(q.drop_first(), p - 1, e, name);
    }
}

/// The coupling between a pending queue and one FCFS station: the station is
/// well-formed; the departures pending for its name are exactly its
/// in-service count; each such pending departure is the event under service;
/// and every event the policy has stored is destined for this station.
pub open spec fn station_coupled(q: Seq<Event>, st: Station<FCFSPolicyManager>) -> bool {
    &&& st.policy.inv(st.data)
    &&& pending_departures(q, st.name@) == st.policy.busy()
    &&& (forall|k: int|
        0 <= k < q.len() && is_departure_for(#[trigger] q[k], st.name@) ==> st.policy.um()
            == Some(q[k]@))
    &&& (st.policy.um() matches Some(u) ==> u.destination == st.name@)
    &&& (forall|k: int|
        0 <= k < st.policy.qm().len() ==> (#[trigger] st.policy.qm()[k]).destination == st.name@)
}

/// The whole simulation's coupling: station names are distinct, every station
/// is coupled to the pending queue, and every pending arrival is fresh (the
/// in-process tag is the policies' own bookkeeping and never delivered from
/// outside).
pub open spec fn fcfs_simulation_inv(engine: Engine<Station<FCFSPolicyManager>>) -> bool {
    &&& (forall|i: int, j: int|
        0 <= i < j < engine.stations@.len() ==> (#[trigger] engine.stations@[i]).name@ != (
        #[trigger] engine.stations@[j]).name@)
    &&& (forall|i: int|
        0 <= i < engine.stations@.len() ==> station_coupled(
            engine.queue@,
            #[trigger] engine.stations@[i],
        ))
    &&& (forall|k: int|
        0 <= k < engine.queue@.len() && (#[trigger] engine.queue@[k]).kind
            == DefaultType::Arrival.to_char() ==> fresh_arrival(engine.queue@[k]))
}

/// Single-server exclusivity: under the coupling, at most one departure event
/// is pending for any FCFS station at any time — exactly one while the
/// station is busy, none while it is idle.
pub proof fn lemma_single_departure_pending(engine: Engine<Station<FCFSPolicyManager>>, i: int)
    requires
        fcfs_simulation_inv(engine),
        0 <= i < engine.stations@.len(),
    ensures
        pending_departures(engine.queue@, engine.stations@[i].name@)
            == engine.stations@[i].policy.busy(),
        pending_departures(engine.queue@, engine.stations@[i].name@) <= 1,
{
    assert(station_coupled(engine.queue@, engine.stations@[i]));
}

/// A freshly built simulation — no pending events, no stations — is coupled.
pub proof fn lemma_coupling_initial(engine: Engine<Station<FCFSPolicyManager>>)
    requires
        engine.queue@.len() == 0,
        engine.stations@.len() == 0,
    ensures
        fcfs_simulation_inv(engine),
{
}

/// Registering an idle station under a name nobody uses yet keeps the
/// simulation coupled.
pub proof fn lemma_register_preserves_coupling(
    pre: Engine<Station<FCFSPolicyManager>>,
    post: Engine<Station<FCFSPolicyManager>>,
    st: Station<FCFSPolicyManager>,
)
    requires
        fcfs_simulation_inv(pre),
        post.queue@ == pre.queue@,
        post.stations@ == pre.stations@.push(st),
        st.policy.um() is None,
        st.policy.qm().len() == 0,
        st.data.sys_clients == 0,
        pending_departures(pre.queue@, st.name@) == 0,
        forall|i: int| 0 <= i < pre.stations@.len() ==> (#[trigger] pre.stations@[i]).name@
            != st.name@,
    ensures
        fcfs_simulation_inv(post),
{
    lemma_pending_none(pre.queue@, st.name@);
    assert(station_coupled(post.queue@, st));
    assert forall|i: int| 0 <= i < post.stations@.len() implies station_coupled(
        post.queue@,
        #[trigger] post.stations@[i],
    ) by {
        if i < pre.stations@.len() {
            assert(post.stations@[i] == pre.stations@[i]);
            assert(station_coupled(pre.queue@, pre.stations@[i]));
        }
    }
}

/// Seeding a fresh arrival keeps the simulation coupled: it is no departure,
/// so no count moves.
pub proof fn lemma_enqueue_preserves_coupling(
    pre: Engine<Station<FCFSPolicyManager>>,
    post: Engine<Station<FCFSPolicyManager>>,
    e: Event,
)
    requires
        fcfs_simulation_inv(pre),
        post.stations@ == pre.stations@,
        post.queue@ == pre.queue@.insert(insert_pos(pre.queue@, e.occur_time), e),
        e.kind == DefaultType::Arrival.to_char(),
        fresh_arrival(e),
    ensures
        fcfs_simulation_inv(post),
{
    let p = insert_pos(pre.queue@, e.occur_time);
    crate::engines::lemma_enqueue_position(pre.queue@, e.occur_time);
    pre.queue@.insert_ensures(p, e);
    assert forall|i: int| 0 <= i < post.stations@.len() implies station_coupled(
        post.queue@,
        #[trigger] post.stations@[i],
    ) by {
        let st = pre.stations@[i];
        assert(station_coupled(pre.queue@, st));
        lemma_pending_insert(pre.queue@, p, e, st.name@);
        assert forall|k: int|
            0 <= k < post.queue@.len() && is_departure_for(
                #[trigger] post.queue@[k],
                st.name@,
            ) implies st.policy.um() == Some(post.queue@[k]@) by {
            if k < p {
                assert(post.queue@[k] == pre.queue@[k]);
            } else if k > p {
                assert(post.queue@[k] == pre.queue@[k - 1]);
            }
        }
    }
    assert forall|k: int|
        0 <= k < post.queue@.len() && (#[trigger] post.queue@[k]).kind
            == DefaultType::Arrival.to_char() implies fresh_arrival(post.queue@[k]) by {
        if k < p {
            assert(post.queue@[k] == pre.queue@[k]);
        } else if k > p {
            assert(post.queue@[k] == pre.queue@[k - 1]);
        }
    }
}

/// A station whose name is neither the popped event's destination nor the
/// follow-up's stays coupled through the dispatch.
proof fn lemma_coupled_uninvolved(
    qpre: Seq<Event>,
    qpost: Seq<Event>,
    st: Station<FCFSPolicyManager>,
    cr: ComputeResult,
    r: Result<(), EngineError>,
)
    requires
        station_coupled(qpre, st),
        qpre.len() > 0,
        qpre[0].destination@ != st.name@,
        tick_outcome(qpre.drop_first(), cr, qpost, r),
        r is Ok,
        cr matches ComputeResult::Event(f) ==> f.destination@ != st.name@,
    ensures
        station_coupled(qpost, st),
{
    let rest = qpre.drop_first();
    assert(forall|k: int| 0 <= k < rest.len() ==> rest[k] == qpre[k + 1]);
    assert(pending_departures(rest, st.name@) == st.policy.busy());
    match cr {
        ComputeResult::Done => {
            assert(qpost == rest);
        },
        ComputeResult::Event(f) => {
            let p = insert_pos(rest, f.occur_time);
            crate::engines::lemma_enqueue_position(rest, f.occur_time);
            rest.insert_ensures(p, f);
            lemma_pending_insert(rest, p, f, st.name@);
            assert forall|k: int|
                0 <= k < qpost.len() && is_departure_for(
                    #[trigger] qpost[k],
                    st.name@,
                ) implies st.policy.um() == Some(qpost[k]@) by {
                if k < p {
                    assert(qpost[k] == rest[k]);
                } else if k > p {
                    assert(qpost[k] == rest[k - 1]);
                }
            }
        },
        ComputeResult::Error(_) => {
            assert(false);
        },
    }
}

/// Every successful `tick` preserves the simulation coupling — in particular
/// the single-server exclusivity law keeps holding: a busy station has
/// exactly one pending departure, the event under service, and an idle one
/// has none. A failed `tick` is fatal and the simulation must not be stepped
/// further.
pub proof fn lemma_tick_preserves_coupling(
    pre: Engine<Station<FCFSPolicyManager>>,
    post: Engine<Station<FCFSPolicyManager>>,
    r: Result<(), EngineError>,
)
    requires
        fcfs_simulation_inv(pre),
        tick_post(pre, post, r),
        r is Ok,
    ensures
        fcfs_simulation_inv(post),
{
    if pre.queue@.len() == 0 {
    } else {
        let e = pre.queue@[0];
        let rest = pre.queue@.drop_first();
        let n = pre.stations@.len() as int;
        let i = find_pos(pre.stations@, e.destination@);
        lemma_find_pos_properties(pre.stations@, e.destination@);
        assert(i < n);
        let st = pre.stations@[i];
        let st2 = post.stations@[i];
        let cr = choose|cr: ComputeResult|
            #[trigger] <Station<FCFSPolicyManager> as IStation>::handle_post(st, e, st2, cr)
                && tick_outcome(rest, cr, post.queue@, r);
        assert(<Station<FCFSPolicyManager> as IStation>::handle_post(st, e, st2, cr)
            && tick_outcome(rest, cr, post.queue@, r));
        assert(st.name@ == e.destination@);
        assert(station_coupled(pre.queue@, st));
        assert(forall|k: int| 0 <= k < rest.len() ==> rest[k] == pre.queue@[k + 1]);
        let d1 = crate::fcfs_ruler::clock_advanced(st.data, e);
        let kind = DefaultType::spec_from_char(e.kind);
        // The handled kind is an arrival or a departure: anything else is a
        // fault, and the tick did not fail.
        assert(kind == DefaultType::Arrival || kind == DefaultType::Departure);
        assert(kind == DefaultType::Arrival ==> fresh_arrival(e));
        lemma_fcfs_invariant_preserved(st.policy, st.data, e, st2.policy, st2.data, cr);

        // The involved station stays coupled.
        assert(station_coupled(post.queue@, st2)) by {
            if kind == DefaultType::Arrival {
                assert(e.kind == DefaultType::Arrival.to_char());
                assert(!is_departure_for(e, st.name@));
                assert(pending_departures(rest, st.name@) == st.policy.busy());
                match cr {
                    ComputeResult::Event(f) => {
                        // idle server: the arrival starts service at once
                        assert(st.policy.um() is None);
                        assert(pending_departures(rest, st.name@) == 0);
                        lemma_pending_none(rest, st.name@);
                        let p = insert_pos(rest, f.occur_time);
                        crate::engines::lemma_enqueue_position(rest, f.occur_time);
                        rest.insert_ensures(p, f);
                        lemma_pending_insert(rest, p, f, st.name@);
                        assert(is_departure_for(f, st.name@));
                        assert(pending_departures(post.queue@, st.name@) == 1);
                        assert forall|k: int|
                            0 <= k < post.queue@.len() && is_departure_for(
                                #[trigger] post.queue@[k],
                                st.name@,
                            ) implies st2.policy.um() == Some(post.queue@[k]@) by {
                            if k < p {
                                assert(post.queue@[k] == rest[k]);
                            } else if k > p {
                                assert(post.queue@[k] == rest[k - 1]);
                            }
                        }
                    },
                    ComputeResult::Done => {
                        // busy server: the arrival joined the waiting line
                        assert(post.queue@ == rest);
                        assert(st2.policy.um() == st.policy.um());
                        assert(st2.policy.qm() == st.policy.qm().push(
                            crate::fcfs_ruler::tagged_in_process(e@),
                        ));
                        assert forall|k: int|
                            0 <= k < st2.policy.qm().len() implies (
                            #[trigger] st2.policy.qm()[k]).destination == st2.name@ by {
                            if k < st.policy.qm().len() {
                                assert(st2.policy.qm()[k] == st.policy.qm()[k]);
                            }
                        }
                    },
                    ComputeResult::Error(_) => {
                        assert(false);
                    },
                }
            } else {
                // a departure: it must match the event under service
                assert(e.kind == DefaultType::Departure.to_char());
                assert(crate::fcfs_ruler::departure_matches(st.policy, e));
                assert(st.policy.um() == Some(e@));
                assert(is_departure_for(e, st.name@));
                assert(st.policy.busy() == 1);
                assert(pending_departures(rest, st.name@) == 0);
                lemma_pending_none(rest, st.name@);
                match cr {
                    ComputeResult::Event(f) => {
                        // a waiting client starts service
                        assert(f@ == crate::fcfs_ruler::service_start(
                            st.policy.qm()[0],
                            d1.clock as int,
                        ));
                        assert(f.destination@ == st.policy.qm()[0].destination);
                        assert(is_departure_for(f, st.name@));
                        let p = insert_pos(rest, f.occur_time);
                        crate::engines::lemma_enqueue_position(rest, f.occur_time);
                        rest.insert_ensures(p, f);
                        lemma_pending_insert(rest, p, f, st.name@);
                        assert(pending_departures(post.queue@, st.name@) == 1);
                        assert forall|k: int|
                            0 <= k < post.queue@.len() && is_departure_for(
                                #[trigger] post.queue@[k],
                                st.name@,
                            ) implies st2.policy.um() == Some(post.queue@[k]@) by {
                            if k < p {
                                assert(post.queue@[k] == rest[k]);
                            } else if k > p {
                                assert(post.queue@[k] == rest[k - 1]);
                            }
                        }
                        assert(st2.policy.qm() == st.policy.qm().drop_first());
                        assert forall|k: int|
                            0 <= k < st2.policy.qm().len() implies (
                            #[trigger] st2.policy.qm()[k]).destination == st2.name@ by {
                            assert(st2.policy.qm()[k] == st.policy.qm()[k + 1]);
                        }
                    },
                    ComputeResult::Done => {
                        // the last client left; the server falls idle
                        assert(post.queue@ == rest);
                        assert(st2.policy.um() is None);
                    },
                    ComputeResult::Error(_) => {
                        assert(false);
                    },
                }
            }
        }

        // Uninvolved stations stay coupled, and names are untouched.
        assert forall|m: int| 0 <= m < n implies station_coupled(
            post.queue@,
            #[trigger] post.stations@[m],
        ) by {
            if m != i {
                assert(post.stations@[m] == pre.stations@[m]);
                let stm = pre.stations@[m];
                assert(station_coupled(pre.queue@, stm));
                assert(stm.name@ != st.name@);
                assert(cr matches ComputeResult::Event(f) ==> f.destination@ != stm.name@) by {
                    match cr {
                        ComputeResult::Event(f) => {
                            if kind == DefaultType::Arrival {
                                assert(f.destination@ == st.name@);
                            } else {
                                assert(f.destination@ == st.policy.qm()[0].destination);
                            }
                        },
                        _ => {},
                    }
                }
                lemma_coupled_uninvolved(pre.queue@, post.queue@, stm, cr, r);
            }
        }

        // Pending arrivals stay fresh: the follow-up, if any, is a departure.
        assert forall|k: int|
            0 <= k < post.queue@.len() && (#[trigger] post.queue@[k]).kind
                == DefaultType::Arrival.to_char() implies fresh_arrival(post.queue@[k]) by {
            match cr {
                ComputeResult::Done => {
                    assert(post.queue@[k] == pre.queue@[k + 1]);
                },
                ComputeResult::Event(f) => {
                    let p = insert_pos(rest, f.occur_time);
                    crate::engines::lemma_enqueue_position(rest, f.occur_time);
                    rest.insert_ensures(p, f);
                    assert(f@.kind == DefaultType::Departure.to_char());
                    if k < p {
                        assert(post.queue@[k] == rest[k]);
                    } else if k > p {
                        assert(post.queue@[k] == rest[k - 1]);
                    }
                },
                ComputeResult::Error(_) => {
                    assert(false);
                },
            }
        }

        // Distinct names are preserved.
        assert forall|a: int, b: int| 0 <= a < b < n implies (#[trigger] post.stations@[a]).name@
            != (#[trigger] post.stations@[b]).name@ by {
            assert(post.stations@[a].name@ == pre.stations@[a].name@);
            assert(post.stations@[b].name@ == pre.stations@[b].name@);
        }
    }
}

} // verus!
