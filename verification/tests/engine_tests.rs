use neslib::engines::Engine;
use neslib::engines::EngineError;
use neslib::events::DefaultType;
use neslib::events::Event;
use neslib::fcfs_ruler::FCFSPolicyManager;
use neslib::station::ComputeResult;
use neslib::station::IStation;
use neslib::station::Station;
use neslib::station_data::StationData;

#[test]
fn test_enqueue() {
    let mut engine: Engine<Station<FCFSPolicyManager>> = Engine::new();
    let event = Event::new(DefaultType::Arrival.to_char(), 0, 0, 0, 0, "none".to_string());
    engine.enqueue(event);
}

#[test]
fn test_add_station() {
    let mut engine: Engine<Station<FCFSPolicyManager>> = Engine::new();
    let station = Station::new("mock", FCFSPolicyManager::new());
    engine.register_station(station);
    assert_eq!(engine.stations().len(), 1);
}

struct MockStation {
    name: String,
    data: StationData,
}

impl IStation for MockStation {
    fn handle(&mut self, event: &Event) -> ComputeResult {
        ComputeResult::Event(event.clone())
    }

    fn get_data(&self) -> &StationData {
        &self.data
    }

    fn name(&self) -> &String {
        &self.name
    }
}

#[test]
fn test_forwarder() {
    let mut engine: Engine<MockStation> = Engine::new();
    let station = MockStation { name: "mock".to_string(), data: StationData::new() };
    engine.register_station(station);
    let mut event = Event::gen_arrival(0, 1, 2, 3);
    event.destination = "mock".to_string();
    engine.enqueue(event.clone());
    assert!(engine.tick().is_ok());
    assert!(!engine.events().is_empty());
    assert!(*engine.events().first().unwrap() == event);
}

#[test]
fn enqueue_keeps_occurrence_order_with_stable_ties() {
    let mut engine: Engine<Station<FCFSPolicyManager>> = Engine::new();
    engine.enqueue(Event::new('A', 0, 5, 0, 0, "S".to_string()));
    engine.enqueue(Event::new('A', 0, 1, 10, 0, "S".to_string()));
    engine.enqueue(Event::new('A', 0, 3, 0, 0, "S".to_string()));
    engine.enqueue(Event::new('A', 0, 1, 20, 0, "S".to_string()));
    let times: Vec<u64> = engine.events().iter().map(|e| e.occur_time).collect();
    assert_eq!(times, vec![1, 1, 3, 5]);
    assert_eq!(engine.events()[0].service_time, 10, "equal times keep insertion order");
    assert_eq!(engine.events()[1].service_time, 20);
}

#[test]
fn tick_consumes_the_earliest_event() {
    let mut engine: Engine<Station<FCFSPolicyManager>> = Engine::new();
    engine.register_station(Station::new("S", FCFSPolicyManager::new()));
    engine.enqueue(Event::new('A', 0, 7, 1, 7, "S".to_string()));
    engine.enqueue(Event::new('A', 0, 2, 1, 2, "S".to_string()));
    assert!(engine.tick().is_ok());
    assert_eq!(engine.stations()[0].get_data().clock, 2, "the earliest event fired first");
}

#[test]
fn scenario_single_arrival_schedules_a_departure() {
    let mut engine: Engine<Station<FCFSPolicyManager>> = Engine::new();
    engine.register_station(Station::new("S", FCFSPolicyManager::new()));
    engine.enqueue(Event::new('A', 0, 5, 3, 5, "S".to_string()));
    assert!(engine.tick().is_ok());
    assert_eq!(engine.events().len(), 1, "the queue holds exactly the scheduled departure");
    let dep = &engine.events()[0];
    assert_eq!(dep.kind, 'D');
    assert_eq!(dep.occur_time, 8);
    assert_eq!(dep.destination, "S");
    assert!(engine.has_events());
}

#[test]
fn scenario_simultaneous_arrivals_queue_the_second() {
    let mut engine: Engine<Station<FCFSPolicyManager>> = Engine::new();
    engine.register_station(Station::new("S", FCFSPolicyManager::new()));
    engine.enqueue(Event::new('A', 0, 1, 4, 1, "S".to_string()));
    engine.enqueue(Event::new('A', 0, 1, 6, 1, "S".to_string()));
    assert!(engine.tick().is_ok());
    assert_eq!(engine.stations()[0].get_data().sys_clients, 1);
    assert!(engine.stations()[0].policy.event_under_process.is_some(), "the station is busy");
    assert!(engine.tick().is_ok());
    assert_eq!(engine.stations()[0].get_data().sys_clients, 2);
    assert_eq!(engine.stations()[0].policy.event_queue.len(), 1, "the second arrival waits");
    assert_eq!(engine.events().len(), 1, "only the first departure is pending");
    assert_eq!(engine.events()[0].kind, 'D');
}

#[test]
fn scenario_unroutable_destination_is_fatal() {
    let mut engine: Engine<Station<FCFSPolicyManager>> = Engine::new();
    engine.register_station(Station::new("A", FCFSPolicyManager::new()));
    engine.register_station(Station::new("B", FCFSPolicyManager::new()));
    engine.enqueue(Event::new('A', 0, 1, 1, 1, "C".to_string()));
    let res = engine.tick();
    match res {
        Err(EngineError::UnknownDestination(dest)) => assert_eq!(dest, "C"),
        _ => panic!("an event with an unknown destination must fail the tick"),
    }
}

#[test]
fn station_fault_is_surfaced_by_tick() {
    let mut engine: Engine<Station<FCFSPolicyManager>> = Engine::new();
    engine.register_station(Station::new("S", FCFSPolicyManager::new()));
    engine.enqueue(Event::new('P', 0, 1, 1, 1, "S".to_string()));
    let res = engine.tick();
    assert!(matches!(res, Err(EngineError::StationError(_))));
}

#[test]
fn tick_on_empty_engine_is_a_no_op() {
    let mut engine: Engine<Station<FCFSPolicyManager>> = Engine::new();
    assert!(!engine.has_events());
    assert!(engine.tick().is_ok());
    assert!(!engine.has_events());
}

#[test]
fn full_run_drains_the_simulation() {
    let mut engine: Engine<Station<FCFSPolicyManager>> = Engine::new();
    engine.register_station(Station::new("S", FCFSPolicyManager::new()));
    engine.enqueue(Event::new('A', 0, 1, 4, 1, "S".to_string()));
    engine.enqueue(Event::new('A', 0, 2, 5, 2, "S".to_string()));
    engine.enqueue(Event::new('A', 0, 3, 6, 3, "S".to_string()));
    let mut steps = 0;
    while engine.has_events() {
        assert!(engine.tick().is_ok());
        steps += 1;
        assert!(steps <= 6, "three arrivals and three departures drain the run");
    }
    assert_eq!(steps, 6);
    let data = engine.stations()[0].get_data();
    assert_eq!(data.sys_clients, 0, "every client that arrived has departed");
    assert_eq!(data.clock, 16, "services run back to back: 1+4, then 5, then 6");
}
