//! The first-come-first-served policy: a single server of unbounded capacity
//! that serves clients in strict arrival order.
//!
//! The policy is a two-state machine. It is idle while `event_under_process`
//! is empty, and busy while it holds the client in service; `event_queue` is
//! the first-in-first-out line of waiting clients. A fresh arrival is counted
//! into the station and either starts service at once (idle) or joins the
//! line (busy); starting service restamps the event as the departure that
//! will fire once the service demand has elapsed. A departure must match the
//! event under service; it counts the client out and, if anyone is waiting,
//! starts serving the head of the line.
//!
//! Every fault — an event kind the policy does not model, a departure that
//! matches no client in service, a state that contradicts the policy's
//! bookkeeping, or simulated time outgrowing its machine representation — is
//! reported as a `ComputeResult::Error` and leaves the state unchanged, so
//! the caller can halt instead of continuing from a corrupt simulation.

use vstd::prelude::*;

use crate::events::DefaultType;
use crate::events::Event;
use crate::events::EventModel;
use crate::station::ComputeResult;
use crate::station::IEventManager;
use crate::station_data::StationData;
use crate::station_data::initial_data;

verus! {

/// First-come-first-served policy state: the client in service, if any, and
/// the queue of waiting clients in arrival order.
pub struct FCFSPolicyManager {
    /// The waiting line, earliest arrival first.
    pub event_queue: Vec<Event>,
    /// The client currently in service, stored as the departure event that
    /// will end its service; empty while the server is idle.
    pub event_under_process: Option<Event>,
}

impl FCFSPolicyManager {
    /// The waiting line as a sequence of event models.
    pub open spec fn qm(&self) -> Seq<EventModel> {
        self.event_queue@.map_values(|e: Event| e@)
    }

    /// The event under service as a model, if any.
    pub open spec fn um(&self) -> Option<EventModel> {
        match self.event_under_process {
            Some(e) => Some(e@),
            None => None,
        }
    }

    /// One if a client is in service, zero otherwise.
    pub open spec fn busy(&self) -> int {
        if self.event_under_process is Some {
            1
        } else {
            0
        }
    }

    /// Well-formedness of the policy together with its station's data:
    /// the client count equals the in-service count plus the waiting line's
    /// length; an idle server has an empty line; every waiting event carries
    /// the in-process tag; and the event under service is a tagged departure.
    pub open spec fn inv(&self, data: StationData) -> bool {
        &&& data.sys_clients as int == self.busy() + self.qm().len()
        &&& (self.event_under_process is None ==> self.qm().len() == 0)
        &&& (forall|i: int|
            0 <= i < self.qm().len() ==> (#[trigger] self.qm()[i]).sub_type
                == DefaultType::InProcess.to_char())
        &&& (self.um() matches Some(u) ==> u.kind == DefaultType::Departure.to_char()
            && u.sub_type == DefaultType::InProcess.to_char())
    }

    /// A fresh idle policy.
    pub fn new() -> (m: FCFSPolicyManager)
        ensures
            m.qm() == Seq::<EventModel>::empty(),
            m.um() is None,
            m.inv(initial_data()),
    {
        FCFSPolicyManager { event_queue: Vec::new(), event_under_process: None }
    }

    /// Processes one arrival; see `arrival_post` for the exact contract.
    #[allow(non_snake_case)]
    pub fn ProcessArrival(&mut self, evt: &Event, data: &mut StationData) -> (r: ComputeResult)
        ensures
            arrival_post(*old(self), *old(data), *evt, *final(self), *final(data), r),
    {
        let fresh = evt.sub_type != DefaultType::InProcess.to_char();
        if fresh && data.sys_clients == u64::MAX {
            return ComputeResult::Error(String::from_str("client count would overflow"));
        }
        if self.event_under_process.is_none() && evt.service_time > u64::MAX - data.clock {
            return ComputeResult::Error(String::from_str("station clock would overflow"));
        }
        let mut event = evt.clone();
        if fresh {
            data.client_arrived(evt.arrival_time);
            event.sub_type = DefaultType::InProcess.to_char();
        }
        if self.event_under_process.is_none() {
            let clock = data.clock;
            event.arrival_time = clock;
            event.occur_time = clock + event.service_time;
            event.create_time = clock;
            event.kind = DefaultType::Departure.to_char();
            self.event_under_process = Some(event.clone());
            ComputeResult::Event(event)
        } else {
            let ghost tagged = event@;
            self.event_queue.push(event);
            proof {
                assert(self.qm() =~= old(self).qm().push(tagged));
            }
            ComputeResult::Done
        }
    }

    /// Processes one departure; see `departure_post` for the exact contract.
    #[allow(non_snake_case)]
    pub fn ProcessDeparture(&mut self, evt: &Event, data: &mut StationData) -> (r: ComputeResult)
        ensures
            departure_post(*old(self), *old(data), *evt, *final(self), *final(data), r),
    {
        match &self.event_under_process {
            None => {
                return ComputeResult::Error(
                    String::from_str("departure requested while the server is idle"),
                );
            },
            Some(u) => {
                if !(*u == *evt && evt.sub_type == DefaultType::InProcess.to_char()) {
                    return ComputeResult::Error(
                        String::from_str("departure does not match the event under service"),
                    );
                }
            },
        }
        if data.sys_clients == 0 {
            return ComputeResult::Error(
                String::from_str("departure while the station holds no client"),
            );
        }
        if data.sys_clients > 1 {
            if self.event_queue.len() == 0 {
                return ComputeResult::Error(
                    String::from_str("wait queue empty while clients are waiting"),
                );
            }
            if self.event_queue[0].service_time > u64::MAX - data.clock {
                return ComputeResult::Error(String::from_str("station clock would overflow"));
            }
        }
        self.event_under_process = None;
        data.client_departure();
        if data.sys_clients > 0 {
            let ghost q0 = old(self).qm();
            let mut new_evt = self.event_queue.remove(0);
            let clock = data.clock;
            new_evt.arrival_time = clock;
            new_evt.create_time = clock;
            new_evt.occur_time = clock + new_evt.service_time;
            new_evt.kind = DefaultType::Departure.to_char();
            self.event_under_process = Some(new_evt.clone());
            proof {
                assert(self.qm() =~= q0.drop_first());
            }
            ComputeResult::Event(new_evt)
        } else {
            ComputeResult::Done
        }
    }
}

/// The event model after its sub-type is marked in-process.
pub open spec fn tagged_in_process(e: EventModel) -> EventModel {
    EventModel {
        kind: e.kind,
        create_time: e.create_time,
        occur_time: e.occur_time,
        service_time: e.service_time,
        arrival_time: e.arrival_time,
        sub_type: DefaultType::InProcess.to_char(),
        destination: e.destination,
    }
}

/// The departure scheduled when service of `e` starts at time `clock`: the
/// event restamped to the present and set to fire once its service demand has
/// elapsed.
pub open spec fn service_start(e: EventModel, clock: int) -> EventModel {
    EventModel {
        kind: DefaultType::Departure.to_char(),
        create_time: clock,
        occur_time: clock + e.service_time,
        service_time: e.service_time,
        arrival_time: clock,
        sub_type: e.sub_type,
        destination: e.destination,
    }
}

/// True when nothing observable changed: policy state and station data are
/// as before.
pub open spec fn fcfs_unchanged(
    pre: FCFSPolicyManager,
    pre_data: StationData,
    post: FCFSPolicyManager,
    post_data: StationData,
) -> bool {
    &&& post.qm() == pre.qm()
    &&& post.um() == pre.um()
    &&& post_data == pre_data
}

/// The fresh-arrival counting guard: an arrival is counted into the station
/// unless its sub-type already carries the in-process tag.
pub open spec fn fresh_arrival(e: Event) -> bool {
    e.sub_type != DefaultType::InProcess.to_char()
}

/// A departure is honoured only when it is the event under service, still
/// carrying the in-process tag.
pub open spec fn departure_matches(pre: FCFSPolicyManager, e: Event) -> bool {
    &&& pre.um() == Some(e@)
    &&& e.sub_type == DefaultType::InProcess.to_char()
}

/// Exact contract of `ProcessArrival`, over the state before the call
/// (`pre`, `pre_data`), the incoming event, the state after (`post`,
/// `post_data`) and the result. A machine-representation limit (client count
/// or clock at the top of `u64`) is a fault that changes nothing; otherwise a
/// fresh arrival is counted, and the (tagged) event either starts service at
/// an idle server — producing the matching departure as the follow-up — or
/// joins the back of the waiting line.
pub open spec fn arrival_post(
    pre: FCFSPolicyManager,
    pre_data: StationData,
    e: Event,
    post: FCFSPolicyManager,
    post_data: StationData,
    r: ComputeResult,
) -> bool {
    if fresh_arrival(e) && pre_data.sys_clients == u64::MAX {
        r matches ComputeResult::Error(_) && fcfs_unchanged(pre, pre_data, post, post_data)
    } else if pre.um() is None && e.service_time > u64::MAX - pre_data.clock {
        r matches ComputeResult::Error(_) && fcfs_unchanged(pre, pre_data, post, post_data)
    } else {
        let counted = tagged_in_process(e@);
        &&& post_data.clock == pre_data.clock
        &&& post_data.sys_clients as int == pre_data.sys_clients + (if fresh_arrival(e) {
            1int
        } else {
            0
        })
        &&& if pre.um() is None {
            let dep = service_start(counted, pre_data.clock as int);
            &&& post.um() == Some(dep)
            &&& post.qm() == pre.qm()
            &&& (r matches ComputeResult::Event(f) && f@ == dep)
        } else {
            &&& post.um() == pre.um()
            &&& post.qm() == pre.qm().push(counted)
            &&& r is Done
        }
    }
}

/// Exact contract of `ProcessDeparture`. A departure that does not match the
/// event under service, a client count that contradicts the policy's own
/// bookkeeping, or a clock at the top of `u64` is a fault that changes
/// nothing. Otherwise the client in service leaves; if anyone is waiting,
/// the head of the line starts service and the matching departure is the
/// follow-up, else the server falls idle.
pub open spec fn departure_post(
    pre: FCFSPolicyManager,
    pre_data: StationData,
    e: Event,
    post: FCFSPolicyManager,
    post_data: StationData,
    r: ComputeResult,
) -> bool {
    if !departure_matches(pre, e) {
        r matches ComputeResult::Error(_) && fcfs_unchanged(pre, pre_data, post, post_data)
    } else if pre_data.sys_clients == 0 {
        r matches ComputeResult::Error(_) && fcfs_unchanged(pre, pre_data, post, post_data)
    } else if pre_data.sys_clients > 1 && pre.qm().len() == 0 {
        r matches ComputeResult::Error(_) && fcfs_unchanged(pre, pre_data, post, post_data)
    } else if pre_data.sys_clients > 1 && pre.qm()[0].service_time > u64::MAX - pre_data.clock {
        r matches ComputeResult::Error(_) && fcfs_unchanged(pre, pre_data, post, post_data)
    } else {
        &&& post_data.clock == pre_data.clock
        &&& post_data.sys_clients == pre_data.sys_clients - 1
        &&& if pre_data.sys_clients > 1 {
            let dep = service_start(pre.qm()[0], pre_data.clock as int);
            &&& post.um() == Some(dep)
            &&& post.qm() == pre.qm().drop_first()
            &&& (r matches ComputeResult::Event(f) && f@ == dep)
        } else {
            &&& post.um() is None
            &&& post.qm() == pre.qm()
            &&& r is Done
        }
    }
}

/// The station data once its clock has been advanced to the event's
/// occurrence time (never backwards).
pub open spec fn clock_advanced(d: StationData, e: Event) -> StationData {
    StationData {
        clock: if d.clock >= e.occur_time {
            d.clock
        } else {
            e.occur_time
        },
        sys_clients: d.sys_clients,
    }
}

/// Exact contract of `process_event`: the station clock first advances to the
/// event's occurrence time, then arrivals and departures are handled as
/// `arrival_post` and `departure_post` say; any other kind is a fault the
/// policy does not model, and only the clock has moved.
pub open spec fn fcfs_process_post(
    pre: FCFSPolicyManager,
    pre_data: StationData,
    e: Event,
    post: FCFSPolicyManager,
    post_data: StationData,
    r: ComputeResult,
) -> bool {
    let d1 = clock_advanced(pre_data, e);
    match DefaultType::spec_from_char(e.kind) {
        DefaultType::Arrival => arrival_post(pre, d1, e, post, post_data, r),
        DefaultType::Departure => departure_post(pre, d1, e, post, post_data, r),
        _ => r matches ComputeResult::Error(_) && post.qm() == pre.qm() && post.um() == pre.um()
            && post_data == d1,
    }
}

impl IEventManager for FCFSPolicyManager {
    open spec fn process_post(
        pre: Self,
        pre_data: StationData,
        event: Event,
        post: Self,
        post_data: StationData,
        r: ComputeResult,
    ) -> bool {
        fcfs_process_post(pre, pre_data, event, post, post_data, r)
    }

    fn process_event(&mut self, event: &Event, data: &mut StationData) -> (r: ComputeResult) {
        data.update(event.occur_time);
        match DefaultType::from(event.kind) {
            DefaultType::Arrival => self.ProcessArrival(event, data),
            DefaultType::Departure => self.ProcessDeparture(event, data),
            _ => ComputeResult::Error(
                String::from_str("event kind not modelled by a first-come-first-served station"),
            ),
        }
    }
}

/// Busy/idle coherence: the server is idle exactly when the station holds no
/// client.
pub proof fn lemma_busy_idle_coherence(m: &FCFSPolicyManager, data: StationData)
    requires
        m.inv(data),
    ensures
        m.um() is None <==> data.sys_clients == 0,
{
}

/// Processing any event preserves the policy's well-formedness, provided no
/// externally delivered arrival already carries the in-process tag (that tag
/// belongs to the policy's own bookkeeping; an event wearing it can only have
/// escaped from a waiting line, and re-delivering it would double-queue a
/// client that was counted once).
pub proof fn lemma_fcfs_invariant_preserved(
    pre: FCFSPolicyManager,
    pre_data: StationData,
    e: Event,
    post: FCFSPolicyManager,
    post_data: StationData,
    r: ComputeResult,
)
    requires
        pre.inv(pre_data),
        fcfs_process_post(pre, pre_data, e, post, post_data, r),
        DefaultType::spec_from_char(e.kind) == DefaultType::Arrival ==> fresh_arrival(e),
    ensures
        post.inv(post_data),
{
}

/// Conservation: a processed event changes the client count by exactly one —
/// up for an arrival, down for a departure — and never on a fault; and the
/// count always equals the in-service count plus the waiting line's length.
/// Summed over a run this makes `sys_clients` the number of arrivals
/// processed minus the number of departures processed.
pub proof fn lemma_conservation(
    pre: FCFSPolicyManager,
    pre_data: StationData,
    e: Event,
    post: FCFSPolicyManager,
    post_data: StationData,
    r: ComputeResult,
)
    requires
        pre.inv(pre_data),
        fcfs_process_post(pre, pre_data, e, post, post_data, r),
        DefaultType::spec_from_char(e.kind) == DefaultType::Arrival ==> fresh_arrival(e),
    ensures
        r matches ComputeResult::Error(_) ==> post_data.sys_clients == pre_data.sys_clients,
        !(r matches ComputeResult::Error(_)) ==> post_data.sys_clients as int
            == pre_data.sys_clients + (if DefaultType::spec_from_char(e.kind)
            == DefaultType::Arrival {
            1int
        } else {
            0
        }) - (if DefaultType::spec_from_char(e.kind) == DefaultType::Departure {
            1int
        } else {
            0
        }),
        post_data.sys_clients as int == post.busy() + post.qm().len(),
{
    lemma_fcfs_invariant_preserved(pre, pre_data, e, post, post_data, r);
}

/// Single-server exclusivity: every follow-up event the policy emits is a
/// departure, it is recorded as the one event under service, and it is
/// emitted only when the server was idle or when the outstanding departure is
/// the very event just consumed. A scheduler that enqueues only the policy's
/// follow-ups therefore never holds more than one pending departure per
/// first-come-first-served station.
pub proof fn lemma_single_server_exclusivity(
    pre: FCFSPolicyManager,
    pre_data: StationData,
    e: Event,
    post: FCFSPolicyManager,
    post_data: StationData,
    r: ComputeResult,
)
    requires
        fcfs_process_post(pre, pre_data, e, post, post_data, r),
    ensures
        r matches ComputeResult::Event(f) ==> f@.kind == DefaultType::Departure.to_char()
            && post.um() == Some(f@) && (pre.um() is None || pre.um() == Some(e@)),
{
}

} // verus!
