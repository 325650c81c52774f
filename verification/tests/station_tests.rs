use neslib::events::DefaultType;
use neslib::events::Event;
use neslib::fcfs_ruler::FCFSPolicyManager;
use neslib::station::ComputeResult;
use neslib::station::IEventManager;
use neslib::station::IStation;
use neslib::station::Station;
use neslib::station_data::StationData;

#[test]
fn test_station_arrival() {}

#[test]
fn test_name_equality() {}

#[test]
fn station_data_counts_and_clock() {
    let mut d = StationData::new();
    assert_eq!(d.clock, 0);
    assert_eq!(d.sys_clients, 0);
    d.update(5);
    assert_eq!(d.clock, 5);
    d.update(3);
    assert_eq!(d.clock, 5, "the station clock never moves backwards");
    d.client_arrived(2);
    d.client_arrived(4);
    assert_eq!(d.sys_clients, 2);
    d.client_departure();
    assert_eq!(d.sys_clients, 1);
}

#[test]
fn arrival_at_idle_station_starts_service() {
    let mut station = Station::new("S", FCFSPolicyManager::new());
    let arrival = Event::new('A', 0, 5, 3, 5, "S".to_string());
    let res = station.handle(&arrival);
    assert_eq!(station.get_data().clock, 5);
    assert_eq!(station.get_data().sys_clients, 1);
    match res {
        ComputeResult::Event(dep) => {
            assert_eq!(dep.kind, 'D');
            assert_eq!(dep.sub_type, 'I');
            assert_eq!(dep.create_time, 5);
            assert_eq!(dep.arrival_time, 5);
            assert_eq!(dep.occur_time, 8, "departure fires after the service demand");
            assert_eq!(dep.destination, "S");
        },
        _ => panic!("an arrival at an idle station must schedule a departure"),
    }
}

#[test]
fn arrival_at_busy_station_joins_the_queue() {
    let mut policy = FCFSPolicyManager::new();
    let mut data = StationData::new();
    let first = Event::new('A', 0, 1, 4, 1, "S".to_string());
    let second = Event::new('A', 0, 1, 6, 1, "S".to_string());
    let r1 = policy.process_event(&first, &mut data);
    assert!(matches!(r1, ComputeResult::Event(_)));
    let r2 = policy.process_event(&second, &mut data);
    assert!(matches!(r2, ComputeResult::Done), "no new event is scheduled for a waiting client");
    assert_eq!(data.sys_clients, 2);
    assert_eq!(policy.event_queue.len(), 1);
    assert_eq!(policy.event_queue[0].sub_type, 'I');
}

#[test]
fn departure_with_waiting_client_starts_the_next_service() {
    let mut policy = FCFSPolicyManager::new();
    let mut data = StationData::new();
    let first = Event::new('A', 0, 1, 4, 1, "S".to_string());
    let second = Event::new('A', 0, 1, 6, 1, "S".to_string());
    let dep1 = match policy.process_event(&first, &mut data) {
        ComputeResult::Event(e) => e,
        _ => panic!("expected a departure for the first arrival"),
    };
    assert_eq!(dep1.occur_time, 5);
    assert!(matches!(policy.process_event(&second, &mut data), ComputeResult::Done));
    assert_eq!(data.sys_clients, 2);

    let res = policy.process_event(&dep1, &mut data);
    assert_eq!(data.sys_clients, 1, "the departing client is counted out");
    assert_eq!(data.clock, 5);
    match res {
        ComputeResult::Event(dep2) => {
            assert_eq!(dep2.kind, 'D');
            assert_eq!(dep2.create_time, 5);
            assert_eq!(dep2.arrival_time, 5);
            assert_eq!(
                dep2.occur_time, 11,
                "the waiting client's departure fires at the new clock plus its service demand"
            );
        },
        _ => panic!("a departure with a waiting client must schedule the next departure"),
    }
    assert_eq!(policy.event_queue.len(), 0);
}

#[test]
fn last_departure_leaves_the_station_idle() {
    let mut policy = FCFSPolicyManager::new();
    let mut data = StationData::new();
    let arrival = Event::new('A', 0, 2, 3, 2, "S".to_string());
    let dep = match policy.process_event(&arrival, &mut data) {
        ComputeResult::Event(e) => e,
        _ => panic!("expected a departure"),
    };
    let res = policy.process_event(&dep, &mut data);
    assert!(matches!(res, ComputeResult::Done));
    assert_eq!(data.sys_clients, 0);
    assert!(policy.event_under_process.is_none());
}

#[test]
fn departure_at_idle_station_is_a_fault() {
    let mut policy = FCFSPolicyManager::new();
    let mut data = StationData::new();
    let mut dep = Event::new('D', 0, 2, 3, 2, "S".to_string());
    dep.sub_type = DefaultType::InProcess.to_char();
    let res = policy.process_event(&dep, &mut data);
    assert!(matches!(res, ComputeResult::Error(_)));
    assert_eq!(data.sys_clients, 0);
}

#[test]
fn mismatched_departure_is_a_fault() {
    let mut policy = FCFSPolicyManager::new();
    let mut data = StationData::new();
    let arrival = Event::new('A', 0, 2, 3, 2, "S".to_string());
    assert!(matches!(policy.process_event(&arrival, &mut data), ComputeResult::Event(_)));
    let mut other = Event::new('D', 0, 9, 1, 9, "S".to_string());
    other.sub_type = DefaultType::InProcess.to_char();
    let res = policy.process_event(&other, &mut data);
    assert!(matches!(res, ComputeResult::Error(_)));
    assert_eq!(data.sys_clients, 1, "a rejected departure changes no client count");
}

#[test]
fn unmodelled_kind_is_a_fault() {
    let mut policy = FCFSPolicyManager::new();
    let mut data = StationData::new();
    let probe = Event::new('P', 0, 2, 3, 2, "S".to_string());
    let res = policy.process_event(&probe, &mut data);
    assert!(matches!(res, ComputeResult::Error(_)));
    assert_eq!(data.clock, 2, "the clock still advances before the kind is inspected");
    assert_eq!(data.sys_clients, 0);
}

#[test]
fn service_demand_overflowing_the_clock_is_a_fault() {
    let mut policy = FCFSPolicyManager::new();
    let mut data = StationData::new();
    let arrival = Event::new('A', 0, 1, u64::MAX, 0, "S".to_string());
    let res = policy.process_event(&arrival, &mut data);
    assert!(matches!(res, ComputeResult::Error(_)));
    assert_eq!(data.sys_clients, 0, "a rejected arrival is not counted in");
    assert!(policy.event_under_process.is_none());
}

#[test]
fn station_exposes_name_and_data() {
    let station = Station::new("drive through", FCFSPolicyManager::new());
    assert_eq!(station.name().as_str(), "drive through");
    assert_eq!(station.get_data().clock, 0);
    assert_eq!(station.get_data().sys_clients, 0);
}
