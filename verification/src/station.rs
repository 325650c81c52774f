//! Stations and the policy abstraction.
//!
//! A station binds an immutable routing name, its mutable `StationData`, and
//! one policy. The scheduler treats every station uniformly through the
//! `IStation` capability; a station merely forwards each event to its policy.
//!
//! The traits carry their behaviour as spec members (`process_post`,
//! `handle_post`): each implementation states the exact relation between the
//! state before a call, the event, the state after, and the result, and the
//! scheduler's own contract quotes that relation.

use vstd::prelude::*;

use crate::events::Event;
use crate::station_data::StationData;
use crate::station_data::initial_data;

verus! {

/// What a station reports after handling one event: the event was fully
/// absorbed, exactly one follow-up event must be scheduled, or an
/// unrecoverable fault occurred and the simulation must halt.
pub enum ComputeResult {
    Done,
    Event(Event),
    Error(String),
}

/// A pluggable policy: a state machine that, given an incoming event and the
/// station's data, decides the next action.
pub trait IEventManager: Sized {
    /// The exact relation an implementation's `process_event` establishes
    /// between the policy and station state before the call, the event, the
    /// state after, and the result. The default promises nothing; a policy
    /// meant to carry verified guarantees overrides it.
    open spec fn process_post(
        pre: Self,
        pre_data: StationData,
        event: Event,
        post: Self,
        post_data: StationData,
        r: ComputeResult,
    ) -> bool {
        true
    }

    /// Reacts to one event, updating the policy's own state and the
    /// station's data.
    fn process_event(&mut self, event: &Event, data: &mut StationData) -> (r: ComputeResult)
        ensures
            Self::process_post(*old(self), *old(data), *event, *final(self), *final(data), r),
    ;
}

/// The uniform capability the scheduler dispatches through: handle an event,
/// expose the station's data, and expose its routing name.
pub trait IStation: Sized {
    /// The station's routing name. The default says nothing; a station meant
    /// to carry verified guarantees overrides it.
    open spec fn name_spec(&self) -> Seq<char> {
        Seq::empty()
    }

    /// The station's current data. The default says nothing; a station meant
    /// to carry verified guarantees overrides it.
    open spec fn data_spec(&self) -> StationData {
        initial_data()
    }

    /// The exact relation `handle` establishes between the station before
    /// the call, the event, the station after, and the result. The default
    /// promises nothing; a station meant to carry verified guarantees
    /// overrides it.
    open spec fn handle_post(pre: Self, event: Event, post: Self, r: ComputeResult) -> bool {
        true
    }

    /// Lets the station process one event.
    fn handle(&mut self, event: &Event) -> (r: ComputeResult)
        ensures
            final(self).name_spec() == old(self).name_spec(),
            Self::handle_post(*old(self), *event, *final(self), r),
    ;

    /// Read-only view of the station's data, for observers between ticks.
    fn get_data(&self) -> (d: &StationData)
        ensures
            *d == self.data_spec(),
    ;

    /// The station's routing name.
    fn name(&self) -> (n: &String)
        ensures
            n@ == self.name_spec(),
    ;
}

/// A named processing unit: one `StationData` and one policy instance. The
/// station is the unique owner of its data; the scheduler addresses it only
/// through the `IStation` capability.
pub struct Station<T: IEventManager> {
    pub name: String,
    pub data: StationData,
    pub policy: T,
}

impl<T: IEventManager> Station<T> {
    /// A fresh station with the given routing name and policy, starting from
    /// the initial data (time zero, no clients).
    pub fn new(name: &str, policy: T) -> (s: Station<T>)
        ensures
            s.name@ == name@,
            s.data == initial_data(),
            s.policy == policy,
    {
        Station { name: String::from_str(name), data: StationData::new(), policy }
    }
}

impl<T: IEventManager> IStation for Station<T> {
    open spec fn name_spec(&self) -> Seq<char> {
        self.name@
    }

    open spec fn data_spec(&self) -> StationData {
        self.data
    }

    open spec fn handle_post(pre: Self, event: Event, post: Self, r: ComputeResult) -> bool {
        &&& T::process_post(pre.policy, pre.data, event, post.policy, post.data, r)
        &&& post.name@ == pre.name@
    }

    fn handle(&mut self, event: &Event) -> (r: ComputeResult) {
        self.policy.process_event(event, &mut self.data)
    }

    fn get_data(&self) -> (d: &StationData) {
        &self.data
    }

    fn name(&self) -> (n: &String) {
        &self.name
    }
}

} // verus!
