//! A deterministic discrete-event simulation core: a time-ordered event
//! scheduler, named stations with pluggable queueing policies, and a
//! first-come-first-served single-server policy, all with verified contracts.

pub mod coupling;
pub mod engines;
pub mod events;
pub mod fcfs_ruler;
pub mod station;
pub mod station_data;
