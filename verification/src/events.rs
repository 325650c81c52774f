//! Events and their kinds.
//!
//! An `Event` is a plain value describing a scheduled occurrence: a kind, a
//! creation time, the simulated time at which it must fire (the sole sort key
//! of the scheduler), two payload times whose meaning belongs to the policy
//! that handles the event, a policy-private sub-type tag, and the name of the
//! station the event is routed to.
//!
//! Simulated time is a `u64` count of abstract time units; it has no relation
//! to wall-clock time and only ever advances.

use vstd::prelude::*;

verus! {

/// The closed enumeration of event kinds, convertible to and from a compact
/// one-character symbolic code (an unrecognized code maps to `NoEvent`).
#[derive(Clone, Copy, Debug, PartialEq, Eq, Structural)]
pub enum DefaultType {
    Arrival,
    Departure,
    InProcess,
    End,
    Probe,
    Maintenance,
    NoEvent,
}

impl DefaultType {
    /// The one-character code of each kind.
    pub open spec fn spec_to_char(&self) -> char {
        match self {
            DefaultType::Arrival => 'A',
            DefaultType::Departure => 'D',
            DefaultType::InProcess => 'I',
            DefaultType::End => 'E',
            DefaultType::Probe => 'P',
            DefaultType::Maintenance => 'M',
            DefaultType::NoEvent => 'N',
        }
    }

    /// Returns the compact symbolic code of this kind.
    #[verifier::when_used_as_spec(spec_to_char)]
    pub fn to_char(&self) -> (c: char)
        ensures
            c == self.spec_to_char(),
    {
        match self {
            DefaultType::Arrival => 'A',
            DefaultType::Departure => 'D',
            DefaultType::InProcess => 'I',
            DefaultType::End => 'E',
            DefaultType::Probe => 'P',
            DefaultType::Maintenance => 'M',
            DefaultType::NoEvent => 'N',
        }
    }

    /// The kind a one-character code stands for; codes that name no kind fall
    /// back to `NoEvent`.
    pub open spec fn spec_from_char(c: char) -> DefaultType {
        match c {
            'A' => DefaultType::Arrival,
            'D' => DefaultType::Departure,
            'I' => DefaultType::InProcess,
            'E' => DefaultType::End,
            'P' => DefaultType::Probe,
            'M' => DefaultType::Maintenance,
            'N' => DefaultType::NoEvent,
            _ => DefaultType::NoEvent,
        }
    }

    /// A human-readable name for the kind, for reporting outside the core.
    pub open spec fn spec_label(&self) -> Seq<char> {
        match self {
            DefaultType::Arrival => "Arrival"@,
            DefaultType::Departure => "Departure"@,
            DefaultType::InProcess => "InProcess"@,
            DefaultType::End => "End"@,
            DefaultType::Probe => "Probe"@,
            DefaultType::Maintenance => "Maintenance"@,
            DefaultType::NoEvent => "NoEvent"@,
        }
    }

    /// Returns the human-readable name of this kind.
    pub fn label(&self) -> (s: String)
        ensures
            s@ == self.spec_label(),
    {
        match self {
            DefaultType::Arrival => String::from_str("Arrival"),
            DefaultType::Departure => String::from_str("Departure"),
            DefaultType::InProcess => String::from_str("InProcess"),
            DefaultType::End => String::from_str("End"),
            DefaultType::Probe => String::from_str("Probe"),
            DefaultType::Maintenance => String::from_str("Maintenance"),
            DefaultType::NoEvent => String::from_str("NoEvent"),
        }
    }
}

impl From<char> for DefaultType {
    /// Decodes a one-character code, falling back to `NoEvent`.
    fn from(value: char) -> (r: DefaultType)
        ensures
            r == DefaultType::spec_from_char(value),
    {
        match value {
            'A' => DefaultType::Arrival,
            'D' => DefaultType::Departure,
            'I' => DefaultType::InProcess,
            'E' => DefaultType::End,
            'P' => DefaultType::Probe,
            'M' => DefaultType::Maintenance,
            'N' => DefaultType::NoEvent,
            _ => DefaultType::NoEvent,
        }
    }
}

impl vstd::std_specs::convert::FromSpecImpl<char> for DefaultType {
    open spec fn obeys_from_spec() -> bool {
        true
    }

    open spec fn from_spec(v: char) -> DefaultType {
        DefaultType::spec_from_char(v)
    }
}

/// The mathematical model of an `Event`: the same fields over unbounded
/// integers and character sequences. Contracts throughout the crate speak of
/// events through this model (`e@`).
pub struct EventModel {
    pub kind: char,
    pub create_time: int,
    pub occur_time: int,
    pub service_time: int,
    pub arrival_time: int,
    pub sub_type: char,
    pub destination: Seq<char>,
}

/// A scheduled occurrence. Events are plain values: ownership moves into the
/// scheduler's queue on enqueue and out again on dequeue.
pub struct Event {
    /// One-character code of the event's kind (see `DefaultType`).
    pub kind: char,
    /// Simulated time at which the event was generated.
    pub create_time: u64,
    /// Simulated time at which the event must fire; the scheduler's sole sort key.
    pub occur_time: u64,
    /// Duration payload; its meaning belongs to the handling policy.
    pub service_time: u64,
    /// Time payload; its meaning belongs to the handling policy.
    pub arrival_time: u64,
    /// Policy-private tag (for instance, marks an arrival whose side effects
    /// have already been counted).
    pub sub_type: char,
    /// Name of the station the event is routed to.
    pub destination: String,
}

impl View for Event {
    type V = EventModel;

    open spec fn view(&self) -> EventModel {
        EventModel {
            kind: self.kind,
            create_time: self.create_time as int,
            occur_time: self.occur_time as int,
            service_time: self.service_time as int,
            arrival_time: self.arrival_time as int,
            sub_type: self.sub_type,
            destination: self.destination@,
        }
    }
}

impl Clone for Event {
    fn clone(&self) -> (r: Event)
        ensures
            r == *self,
    {
        Event {
            kind: self.kind,
            create_time: self.create_time,
            occur_time: self.occur_time,
            service_time: self.service_time,
            arrival_time: self.arrival_time,
            sub_type: self.sub_type,
            destination: self.destination.clone(),
        }
    }
}

impl PartialEq for Event {
    /// Structural equality: all fields equal, the destination by its characters.
    fn eq(&self, other: &Event) -> (r: bool) {
        self.kind == other.kind && self.create_time == other.create_time
            && self.occur_time == other.occur_time && self.service_time == other.service_time
            && self.arrival_time == other.arrival_time && self.sub_type == other.sub_type
            && self.destination == other.destination
    }
}

impl vstd::std_specs::cmp::PartialEqSpecImpl for Event {
    open spec fn obeys_eq_spec() -> bool {
        true
    }

    open spec fn eq_spec(&self, other: &Event) -> bool {
        self@ == other@
    }
}

impl Event {
    /// Builds an event with the given kind code and times; the sub-type tag
    /// starts out as the `NoEvent` code.
    pub fn new(
        kind: char,
        create_time: u64,
        occur_time: u64,
        service_time: u64,
        arrival_time: u64,
        destination: String,
    ) -> (e: Event)
        ensures
            e.kind == kind,
            e.create_time == create_time,
            e.occur_time == occur_time,
            e.service_time == service_time,
            e.arrival_time == arrival_time,
            e.sub_type == DefaultType::NoEvent.to_char(),
            e.destination == destination,
    {
        Event {
            kind,
            create_time,
            occur_time,
            service_time,
            arrival_time,
            sub_type: DefaultType::NoEvent.to_char(),
            destination,
        }
    }

    /// Builds a fresh arrival at the given clock. The three durations are
    /// supplied by the caller, typically drawn from a random-variate source:
    /// the gap until the arrival fires, its service demand, and the gap used
    /// for the arrival-time payload. The destination starts as a placeholder
    /// that the caller routes explicitly.
    pub fn gen_arrival(
        clock: u64,
        occur_gap: u64,
        service_time: u64,
        arrival_gap: u64,
    ) -> (e: Event)
        requires
            clock + occur_gap <= u64::MAX,
            clock + arrival_gap <= u64::MAX,
        ensures
            e.kind == DefaultType::Arrival.to_char(),
            e.create_time == clock,
            e.occur_time == clock + occur_gap,
            e.service_time == service_time,
            e.arrival_time == clock + arrival_gap,
            e.sub_type == DefaultType::Arrival.to_char(),
            e.destination@ == "None"@,
    {
        Event {
            kind: DefaultType::Arrival.to_char(),
            create_time: clock,
            occur_time: clock + occur_gap,
            service_time,
            arrival_time: clock + arrival_gap,
            sub_type: DefaultType::Arrival.to_char(),
            destination: String::from_str("None"),
        }
    }

    /// Builds a departure at the given clock, firing after the supplied gap
    /// and carrying an arrival-time payload the supplied gap in the past.
    pub fn gen_departure(clock: u64, occur_gap: u64, arrival_gap: u64) -> (e: Event)
        requires
            clock + occur_gap <= u64::MAX,
            arrival_gap <= clock,
        ensures
            e.kind == DefaultType::Departure.to_char(),
            e.create_time == clock,
            e.occur_time == clock + occur_gap,
            e.service_time == 0,
            e.arrival_time == clock - arrival_gap,
            e.sub_type == DefaultType::NoEvent.to_char(),
            e.destination@ == "None"@,
    {
        Event {
            kind: DefaultType::Departure.to_char(),
            create_time: clock,
            occur_time: clock + occur_gap,
            service_time: 0,
            arrival_time: clock - arrival_gap,
            sub_type: DefaultType::NoEvent.to_char(),
            destination: String::from_str("None"),
        }
    }
}

} // verus!
